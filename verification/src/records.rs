//! Leaf records: what a crawl gathers under a day.

use vstd::prelude::*;

verus! {

/// One product link: its caption, trimmed and never empty, and where it
/// points.
#[derive(Clone, Debug, PartialEq, Eq)]
pub struct ProductDescription {
    pub description: String,
    pub url: String,
}

/// All product links gathered for one day, in the order they were read.
#[derive(Debug, PartialEq, Eq)]
pub struct DailyProducts {
    pub year: u32,
    pub month: u32,
    pub day: u32,
    pub products: Vec<ProductDescription>,
}

/// Prices of one product.
#[derive(Clone, Copy, Debug, PartialEq, Eq)]
pub struct Product {
    pub price: u64,
    pub original_price: u64,
}

/// One page of a day's listing: its number, counted from one, and its
/// absolute URL.
#[derive(Clone, Debug, PartialEq, Eq)]
pub struct Page {
    pub page: u32,
    pub url: String,
}

/// A product link as contracts see it.
pub struct DescriptionView {
    pub description: Seq<char>,
    pub url: Seq<char>,
}

/// A day's record as contracts see it.
pub struct DailyProductsView {
    pub year: u32,
    pub month: u32,
    pub day: u32,
    pub products: Seq<DescriptionView>,
}

/// A listing page as contracts see it.
pub struct PageView {
    pub page: u32,
    pub url: Seq<char>,
}

impl View for ProductDescription {
    type V = DescriptionView;

    open spec fn view(&self) -> DescriptionView {
        DescriptionView { description: self.description@, url: self.url@ }
    }
}

impl View for DailyProducts {
    type V = DailyProductsView;

    open spec fn view(&self) -> DailyProductsView {
        DailyProductsView {
            year: self.year,
            month: self.month,
            day: self.day,
            products: description_views(self.products@),
        }
    }
}

impl View for Page {
    type V = PageView;

    open spec fn view(&self) -> PageView {
        PageView { page: self.page, url: self.url@ }
    }
}

/// The views of a run of product links, in order.
pub open spec fn description_views(list: Seq<ProductDescription>) -> Seq<DescriptionView> {
    list.map_values(|d: ProductDescription| d@)
}

/// The views of a run of listing pages, in order.
pub open spec fn page_views(list: Seq<Page>) -> Seq<PageView> {
    list.map_values(|p: Page| p@)
}

} // verus!
