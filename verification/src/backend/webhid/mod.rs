//! The filter by which a browser offers devices for selection.

use vstd::prelude::*;

verus! {

/// What a device has to match to be offered: each field that is set has to
/// be the same on the device.
#[derive(Debug, Copy, Clone, Eq, PartialEq)]
pub struct DeviceFilter {
    pub vendor_id: Option<u16>,
    pub product_id: Option<u16>,
    pub usage_page: Option<u16>,
    pub usage: Option<u16>,
}

impl DeviceFilter {
    /// The filter that every device matches.
    pub fn new() -> (filter: Self)
        ensures
            filter == (DeviceFilter {
                vendor_id: None,
                product_id: None,
                usage_page: None,
                usage: None,
            }),
    {
        Self { vendor_id: None, product_id: None, usage_page: None, usage: None }
    }

    /// This filter, and the vendor id has to be `id`.
    pub fn with_vendor_id(self, id: u16) -> (filter: Self)
        ensures
            filter == (DeviceFilter { vendor_id: Some(id), ..self }),
    {
        let mut filter = self;
        filter.vendor_id = Some(id);
        filter
    }

    /// This filter, and the product id has to be `id`.
    pub fn with_product_id(self, id: u16) -> (filter: Self)
        ensures
            filter == (DeviceFilter { product_id: Some(id), ..self }),
    {
        let mut filter = self;
        filter.product_id = Some(id);
        filter
    }

    /// This filter, and the usage page has to be `id`.
    pub fn with_usage_page(self, id: u16) -> (filter: Self)
        ensures
            filter == (DeviceFilter { usage_page: Some(id), ..self }),
    {
        let mut filter = self;
        filter.usage_page = Some(id);
        filter
    }

    /// This filter, and the usage has to be `id`.
    pub fn with_usage(self, id: u16) -> (filter: Self)
        ensures
            filter == (DeviceFilter { usage: Some(id), ..self }),
    {
        let mut filter = self;
        filter.usage = Some(id);
        filter
    }
}

} // verus!
