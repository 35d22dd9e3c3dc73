//! The records of a device on macOS, from the properties that the device
//! manager holds of it.

use vstd::prelude::*;
use vstd::string::StringSliceAdditionalSpecFns;

use crate::device_info::{usage_is_a_key, views_of, DeviceId, DeviceInfo, DeviceInfoView};
use crate::error::{HidError, HidResult};

verus! {

/// The properties of a device that its records are made of, each as far as
/// the device has it.
#[derive(Debug, PartialEq, Eq)]
pub struct DeviceProperties {
    /// The product name.
    pub name: Option<String>,
    /// The product id.
    pub product_id: Option<i32>,
    /// The vendor id.
    pub vendor_id: Option<i32>,
    /// The usage page of the primary collection.
    pub primary_usage_page: Option<i32>,
    /// The usage of the primary collection.
    pub primary_usage: Option<i32>,
    /// The serial number.
    pub serial_number: Option<String>,
    /// The pairs `(usage, usage_page)` of all collections of the device.
    pub usage_pairs: Vec<(i32, i32)>,
}

/// The low sixteen bits of a property.
pub open spec fn low_u16(value: i32) -> u16 {
    value as u16
}

/// The low sixteen bits of a property.
pub fn to_u16(value: i32) -> (r: u16)
    ensures
        r == low_u16(value),
{
    #[verifier::truncate]
    (value as u16)
}

/// The first of the required properties that is missing, by the words of
/// the error that reports it.
pub open spec fn missing_property(properties: DeviceProperties) -> Option<Seq<u8>> {
    if properties.name is None {
        Some("Failed to get the name".spec_bytes())
    } else if properties.product_id is None {
        Some("Failed to get the product id".spec_bytes())
    } else if properties.vendor_id is None {
        Some("Failed to get the vendor id".spec_bytes())
    } else if properties.primary_usage_page is None {
        Some("Failed to get the primary usage page".spec_bytes())
    } else if properties.primary_usage is None {
        Some("Failed to get the primary usage id".spec_bytes())
    } else {
        None
    }
}

/// The record of the primary collection of a device that lacks no property.
pub open spec fn primary_record(properties: DeviceProperties, id: DeviceId) -> DeviceInfoView
    recommends
        missing_property(properties) is None,
{
    DeviceInfoView {
        id: id@,
        name: properties.name->0@,
        product_id: low_u16(properties.product_id->0),
        vendor_id: low_u16(properties.vendor_id->0),
        usage_id: low_u16(properties.primary_usage->0),
        usage_page: low_u16(properties.primary_usage_page->0),
        serial_number: match properties.serial_number {
            Some(serial) => Some(serial@),
            None => None,
        },
    }
}

/// The records of the collections from `from` on that are not the primary
/// one, in the order of `pairs`.
pub open spec fn secondary_records(primary: DeviceInfoView, pairs: Seq<(i32, i32)>, from: int) -> Seq<
    DeviceInfoView,
>
    decreases pairs.len() - from,
{
    if from < 0 || from >= pairs.len() {
        Seq::empty()
    } else {
        let usage = low_u16(pairs[from].0);
        let usage_page = low_u16(pairs[from].1);
        let rest = secondary_records(primary, pairs, from + 1);
        if usage_page != primary.usage_page || usage != primary.usage_id {
            seq![primary.with_usage(usage_page, usage)] + rest
        } else {
            rest
        }
    }
}

/// The records of a device: that of its primary collection, then one for
/// each other collection.
pub open spec fn device_records(properties: DeviceProperties, id: DeviceId) -> Seq<DeviceInfoView> {
    let primary = primary_record(properties, id);
    seq![primary] + secondary_records(primary, properties.usage_pairs@, 0)
}

/// The records of a device, one for each of its collections, the primary one
/// first. A required property that is missing is an error, and so is an
/// identifier that could not be found.
pub fn get_device_info(properties: DeviceProperties, id: HidResult<DeviceId>) -> (r: HidResult<
    Vec<DeviceInfo>,
>)
    ensures
        match missing_property(properties) {
            Some(reason) => r is Err && r->Err_0.says(reason),
            None => match id {
                Err(error) => r == Err::<Vec<DeviceInfo>, HidError>(error),
                Ok(id) => r is Ok && views_of(r->Ok_0@) == device_records(properties, id),
            },
        },
{
    let name = match properties.name {
        Some(name) => name,
        None => {
            return Err(HidError::message("Failed to get the name"));
        },
    };
    let product_id = match properties.product_id {
        Some(value) => to_u16(value),
        None => {
            return Err(HidError::message("Failed to get the product id"));
        },
    };
    let vendor_id = match properties.vendor_id {
        Some(value) => to_u16(value),
        None => {
            return Err(HidError::message("Failed to get the vendor id"));
        },
    };
    let primary_usage_page = match properties.primary_usage_page {
        Some(value) => to_u16(value),
        None => {
            return Err(HidError::message("Failed to get the primary usage page"));
        },
    };
    let primary_usage_id = match properties.primary_usage {
        Some(value) => to_u16(value),
        None => {
            return Err(HidError::message("Failed to get the primary usage id"));
        },
    };
    let id = match id {
        Ok(id) => id,
        Err(error) => {
            return Err(error);
        },
    };
    let ghost expected = primary_record(properties, id);
    let primary_info = DeviceInfo {
        id,
        name,
        product_id,
        vendor_id,
        usage_id: primary_usage_id,
        usage_page: primary_usage_page,
        serial_number: properties.serial_number,
    };
    assert(primary_info@ == expected);
    let pairs = &properties.usage_pairs;
    let mut result: Vec<DeviceInfo> = Vec::new();
    result.push(primary_info.clone());
    let mut i: usize = 0;
    while i < pairs.len()
        invariant
            i <= pairs@.len(),
            primary_info@ == expected,
            primary_usage_page == expected.usage_page,
            primary_usage_id == expected.usage_id,
            result@.len() >= 1,
            views_of(result@) + secondary_records(expected, pairs@, i as int) == seq![expected]
                + secondary_records(expected, pairs@, 0),
        decreases pairs@.len() - i,
    {
        let usage = to_u16(pairs[i].0);
        let usage_page = to_u16(pairs[i].1);
        let ghost before = views_of(result@);
        let ghost rest = secondary_records(expected, pairs@, i + 1);
        if usage_page != primary_usage_page || usage != primary_usage_id {
            let info = primary_info.with_usage(usage_page, usage);
            result.push(info);
            assert(views_of(result@) =~= before.push(expected.with_usage(usage_page, usage)));
            assert(views_of(result@) + rest =~= before + (seq![
                expected.with_usage(usage_page, usage),
            ] + rest));
        }
        i = i + 1;
    }
    assert(views_of(result@) + Seq::<DeviceInfoView>::empty() =~= views_of(result@));
    Ok(result)
}

/// The identifier of a device from its entry in the I/O registry: `port` is
/// the port of its service, `status` and `entry_id` are what the lookup of
/// the entry id gave.
pub fn get_device_id(port: u32, status: i32, entry_id: u64) -> (r: HidResult<DeviceId>)
    ensures
        if port == 0 {
            r is Err && r->Err_0.says("Failed to get mach port".spec_bytes())
        } else if status != 0 {
            r is Err && r->Err_0.says("Failed to retrieve entry id".spec_bytes())
        } else {
            r == Ok::<DeviceId, HidError>(DeviceId::RegistryEntryId(entry_id))
        },
{
    if port == 0 {
        return Err(HidError::message("Failed to get mach port"));
    }
    if status != 0 {
        return Err(HidError::message("Failed to retrieve entry id"));
    }
    Ok(DeviceId::RegistryEntryId(entry_id))
}

/// Where the collections of a device differ from each other, the records of
/// the device differ in their usage.
pub proof fn lemma_secondary_usage_is_a_key(primary: DeviceInfoView, pairs: Seq<(i32, i32)>)
    requires
        forall|i: int, j: int|
            0 <= i < j < pairs.len() ==> (low_u16(pairs[i].0), low_u16(pairs[i].1)) != (
                low_u16(pairs[j].0),
                low_u16(pairs[j].1),
            ),
    ensures
        usage_is_a_key(seq![primary] + secondary_records(primary, pairs, 0)),
{
    let records = seq![primary] + secondary_records(primary, pairs, 0);
    lemma_secondary_origin(primary, pairs, 0);
    assert forall|i: int, j: int| 0 <= i < j < records.len() implies (#[trigger] records[i]).usage_pair()
        != (#[trigger] records[j]).usage_pair() by {
        let tail = secondary_records(primary, pairs, 0);
        assert(records[j] == tail[j - 1]);
        let kj = origin_of(primary, pairs, 0, j - 1);
        if i == 0 {
            assert(records[0] == primary);
        } else {
            assert(records[i] == tail[i - 1]);
            let ki = origin_of(primary, pairs, 0, i - 1);
            lemma_origin_is_monotone(primary, pairs, 0, i - 1, j - 1);
        }
    }
}

/// The index in `pairs` of the pair that the record `k` of the secondary
/// records from `from` on was made of.
spec fn origin_of(primary: DeviceInfoView, pairs: Seq<(i32, i32)>, from: int, k: int) -> int
    decreases pairs.len() - from,
{
    if from < 0 || from >= pairs.len() {
        from
    } else {
        let usage = low_u16(pairs[from].0);
        let usage_page = low_u16(pairs[from].1);
        if usage_page != primary.usage_page || usage != primary.usage_id {
            if k == 0 {
                from
            } else {
                origin_of(primary, pairs, from + 1, k - 1)
            }
        } else {
            origin_of(primary, pairs, from + 1, k)
        }
    }
}

proof fn lemma_secondary_origin(primary: DeviceInfoView, pairs: Seq<(i32, i32)>, from: int)
    requires
        0 <= from,
    ensures
        forall|k: int|
            0 <= k < secondary_records(primary, pairs, from).len() ==> {
                let at = #[trigger] origin_of(primary, pairs, from, k);
                &&& from <= at < pairs.len()
                &&& secondary_records(primary, pairs, from)[k].usage_pair() == (
                    low_u16(pairs[at].1),
                    low_u16(pairs[at].0),
                )
                &&& secondary_records(primary, pairs, from)[k].usage_pair()
                    != primary.usage_pair()
            },
    decreases pairs.len() - from,
{
    if from < pairs.len() {
        lemma_secondary_origin(primary, pairs, from + 1);
        let here = secondary_records(primary, pairs, from);
        let rest = secondary_records(primary, pairs, from + 1);
        let usage = low_u16(pairs[from].0);
        let usage_page = low_u16(pairs[from].1);
        assert forall|k: int| 0 <= k < here.len() implies {
            let at = #[trigger] origin_of(primary, pairs, from, k);
            &&& from <= at < pairs.len()
            &&& here[k].usage_pair() == (low_u16(pairs[at].1), low_u16(pairs[at].0))
            &&& here[k].usage_pair() != primary.usage_pair()
        } by {
            if usage_page != primary.usage_page || usage != primary.usage_id {
                if k > 0 {
                    assert(here[k] == rest[k - 1]);
                    let at = origin_of(primary, pairs, from + 1, k - 1);
                }
            } else {
                let at = origin_of(primary, pairs, from + 1, k);
            }
        }
    }
}

proof fn lemma_origin_is_monotone(
    primary: DeviceInfoView,
    pairs: Seq<(i32, i32)>,
    from: int,
    i: int,
    j: int,
)
    requires
        0 <= from,
        0 <= i < j < secondary_records(primary, pairs, from).len(),
    ensures
        origin_of(primary, pairs, from, i) < origin_of(primary, pairs, from, j),
    decreases pairs.len() - from,
{
    if from < pairs.len() {
        let usage = low_u16(pairs[from].0);
        let usage_page = low_u16(pairs[from].1);
        if usage_page != primary.usage_page || usage != primary.usage_id {
            if i == 0 {
                lemma_secondary_origin(primary, pairs, from + 1);
                let at = origin_of(primary, pairs, from + 1, j - 1);
            } else {
                lemma_origin_is_monotone(primary, pairs, from + 1, i - 1, j - 1);
            }
        } else {
            lemma_origin_is_monotone(primary, pairs, from + 1, i, j);
        }
    }
}

} // verus!
