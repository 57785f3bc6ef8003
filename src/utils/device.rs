//! Parsing of Windows device instance ids such as
//! `PCI\VEN_10EC&DEV_8168&SUBSYS_12341462&REV_06\4&12a3b456&0&00E5`.
use vstd::prelude::*;
use vstd::string::*;
use vstd::utf8::*;

use crate::text::{
    chars_eq, chars_of, copy_range, decode_range, find_char, first_sep, pieces_view, split_chars, split_on,
    string_of,
};

verus! {

/// The text that stands in a field that the id does not give.
pub open spec fn unknown_text() -> Seq<char> {
    seq!['未', '知']
}

/// The fields of the hardware part (`VEN_..&DEV_..&SUBSYS_..&REV_..`).
pub struct HardwareFields {
    pub vendor_id: Seq<char>,
    pub device_id: Seq<char>,
    pub subsystem_vendor_id: Seq<char>,
    pub subsystem_device_id: Seq<char>,
    pub revision_id: Seq<char>,
}

pub open spec fn unknown_hardware() -> HardwareFields {
    HardwareFields {
        vendor_id: unknown_text(),
        device_id: unknown_text(),
        subsystem_vendor_id: unknown_text(),
        subsystem_device_id: unknown_text(),
        revision_id: unknown_text(),
    }
}

/// One `KEY_value` pair of the hardware part applied to the fields: the pair is
/// split at its first `_`; a `SUBSYS` value of at least four bytes whose fourth
/// byte ends a character gives the subsystem device id (its first four bytes)
/// and the subsystem vendor id (the rest); unknown keys, other `SUBSYS` values
/// and pairs without `_` change nothing.
pub open spec fn apply_pair(h: HardwareFields, pair: Seq<char>) -> HardwareFields {
    let u = first_sep(pair, '_');
    let key = pair.subrange(0, u);
    let value = pair.subrange(u + 1, pair.len() as int);
    if u < 0 {
        h
    } else if key == seq!['V', 'E', 'N'] {
        HardwareFields { vendor_id: value, ..h }
    } else if key == seq!['D', 'E', 'V'] {
        HardwareFields { device_id: value, ..h }
    } else if key == seq!['S', 'U', 'B', 'S', 'Y', 'S'] {
        let vb = encode_utf8(value);
        if vb.len() >= 4 && is_char_boundary(vb, 4) {
            HardwareFields {
                subsystem_device_id: decode_utf8(vb.subrange(0, 4)),
                subsystem_vendor_id: decode_utf8(vb.subrange(4, vb.len() as int)),
                ..h
            }
        } else {
            h
        }
    } else if key == seq!['R', 'E', 'V'] {
        HardwareFields { revision_id: value, ..h }
    } else {
        h
    }
}

/// The pairs applied one after another, from the first.
pub open spec fn apply_pairs(h: HardwareFields, pairs: Seq<Seq<char>>) -> HardwareFields
    decreases pairs.len(),
{
    if pairs.len() == 0 {
        h
    } else {
        apply_pairs(apply_pair(h, pairs[0]), pairs.drop_first())
    }
}

/// The model of a [`DeviceInstanceIdInfo`].
pub struct InstanceIdModel {
    pub id: Seq<char>,
    pub bus_type: Seq<char>,
    pub hardware: HardwareFields,
    pub bus_number: Seq<char>,
    pub instance_id: Seq<char>,
    pub feature_code: Seq<char>,
    pub device_number: Seq<char>,
    pub function_number: Seq<char>,
}

/// The `k`-th piece of `ps`, or the unknown text where there is none.
pub open spec fn piece_or_unknown(ps: Seq<Seq<char>>, k: int) -> Seq<char> {
    if k < ps.len() {
        ps[k]
    } else {
        unknown_text()
    }
}

/// What a device instance id says: the parts between backslashes are the bus
/// type, the hardware part, and the instance part; the instance part's pieces
/// between `&` are bus number, feature code, device number and function number.
pub open spec fn instance_id_model(s: Seq<char>) -> InstanceIdModel {
    let parts = split_on(s, '\\');
    let hardware = if parts.len() > 1 {
        apply_pairs(unknown_hardware(), split_on(parts[1], '&'))
    } else {
        unknown_hardware()
    };
    let inst = if parts.len() > 2 {
        split_on(parts[2], '&')
    } else {
        Seq::<Seq<char>>::empty()
    };
    InstanceIdModel {
        id: s,
        bus_type: parts[0],
        hardware,
        bus_number: piece_or_unknown(inst, 0),
        instance_id: piece_or_unknown(parts, 2),
        feature_code: piece_or_unknown(inst, 1),
        device_number: piece_or_unknown(inst, 2),
        function_number: piece_or_unknown(inst, 3),
    }
}

/// The parts of a device instance id.
#[derive(Debug, Clone)]
pub struct DeviceInstanceIdInfo {
    /// The whole id.
    pub id: String,
    /// Bus type, e.g. `PCI`.
    pub bus_type: String,
    /// Vendor id, e.g. `10EC`.
    pub vendor_id: String,
    /// Device id, e.g. `8168`.
    pub device_id: String,
    /// Subsystem vendor id, e.g. `1462`.
    pub subsystem_vendor_id: String,
    /// Subsystem device id, e.g. `1234`.
    pub subsystem_device_id: String,
    /// Revision, e.g. `06`.
    pub revision_id: String,
    /// Bus number (first piece of the instance part).
    pub bus_number: String,
    /// The whole instance part.
    pub instance_id: String,
    /// Feature code or serial (second piece of the instance part).
    pub feature_code: String,
    /// Device number (third piece of the instance part).
    pub device_number: String,
    /// Function number (fourth piece of the instance part).
    pub function_number: String,
}

impl View for DeviceInstanceIdInfo {
    type V = InstanceIdModel;

    open spec fn view(&self) -> InstanceIdModel {
        InstanceIdModel {
            id: self.id@,
            bus_type: self.bus_type@,
            hardware: HardwareFields {
                vendor_id: self.vendor_id@,
                device_id: self.device_id@,
                subsystem_vendor_id: self.subsystem_vendor_id@,
                subsystem_device_id: self.subsystem_device_id@,
                revision_id: self.revision_id@,
            },
            bus_number: self.bus_number@,
            instance_id: self.instance_id@,
            feature_code: self.feature_code@,
            device_number: self.device_number@,
            function_number: self.function_number@,
        }
    }
}

struct HardwareBuf {
    vendor_id: Vec<char>,
    device_id: Vec<char>,
    subsystem_vendor_id: Vec<char>,
    subsystem_device_id: Vec<char>,
    revision_id: Vec<char>,
}

impl View for HardwareBuf {
    type V = HardwareFields;

    closed spec fn view(&self) -> HardwareFields {
        HardwareFields {
            vendor_id: self.vendor_id@,
            device_id: self.device_id@,
            subsystem_vendor_id: self.subsystem_vendor_id@,
            subsystem_device_id: self.subsystem_device_id@,
            revision_id: self.revision_id@,
        }
    }
}

fn unknown_chars() -> (r: Vec<char>)
    ensures
        r@ == unknown_text(),
{
    let r = chars_of("未知");
    proof {
        reveal_strlit("未知");
    }
    assert(r@ =~= unknown_text());
    r
}

fn apply_pair_exec(h: &mut HardwareBuf, pair: &[char])
    ensures
        final(h)@ == apply_pair(old(h)@, pair@),
{
    let u = match find_char(pair, '_') {
        Some(u) => u,
        None => {
            return ;
        },
    };
    let n = pair.len();
    let key = copy_range(pair, 0, u);
    let value = copy_range(pair, u + 1, n);
    if chars_eq(key.as_slice(), &['V', 'E', 'N']) {
        h.vendor_id = value;
    } else if chars_eq(key.as_slice(), &['D', 'E', 'V']) {
        h.device_id = value;
    } else if chars_eq(key.as_slice(), &['S', 'U', 'B', 'S', 'Y', 'S']) {
        let text = string_of(value.as_slice());
        let vs = text.as_str();
        let vb = vs.as_bytes();
        proof {
            encode_utf8_valid_utf8(value@);
        }
        if vb.len() >= 4 && vs.is_char_boundary(4) {
            proof {
                valid_utf8_split(vb@, 4);
            }
            let n = vb.len();
            match (decode_range(vb, 0, 4), decode_range(vb, 4, n)) {
                (Some(device), Some(vendor)) => {
                    h.subsystem_device_id = device;
                    h.subsystem_vendor_id = vendor;
                },
                _ => {
                    assert(false);
                },
            }
        }
    } else if chars_eq(key.as_slice(), &['R', 'E', 'V']) {
        h.revision_id = value;
    }
}

/// Splits a device instance id into its parts. Every part that the id does
/// not give is `"未知"`.
pub fn parse_device_instance_id(dev_ins_id: &str) -> (r: DeviceInstanceIdInfo)
    ensures
        r@ == instance_id_model(dev_ins_id@),
{
    let s = chars_of(dev_ins_id);
    let parts = split_chars(s.as_slice(), '\\');
    let ghost gparts = pieces_view(parts@);
    let mut h = HardwareBuf {
        vendor_id: unknown_chars(),
        device_id: unknown_chars(),
        subsystem_vendor_id: unknown_chars(),
        subsystem_device_id: unknown_chars(),
        revision_id: unknown_chars(),
    };
    if parts.len() > 1 {
        let pairs = split_chars(parts[1].as_slice(), '&');
        let ghost gpairs = pieces_view(pairs@);
        let mut k: usize = 0;
        assert(gpairs.subrange(0, gpairs.len() as int) =~= gpairs);
        while k < pairs.len()
            invariant
                k <= pairs@.len() == gpairs.len(),
                gpairs == pieces_view(pairs@),
                gparts == pieces_view(parts@),
                parts@.len() > 1,
                gpairs == split_on(gparts[1], '&'),
                apply_pairs(unknown_hardware(), gpairs) == apply_pairs(
                    h@,
                    gpairs.subrange(k as int, gpairs.len() as int),
                ),
            decreases pairs@.len() - k,
        {
            let ghost rest = gpairs.subrange(k as int, gpairs.len() as int);
            assert(rest.drop_first() =~= gpairs.subrange(k + 1, gpairs.len() as int));
            apply_pair_exec(&mut h, pairs[k].as_slice());
            k = k + 1;
        }
    }
    let unknown = unknown_chars();
    let mut bus_number = unknown_chars();
    let mut instance_id = unknown_chars();
    let mut feature_code = unknown_chars();
    let mut device_number = unknown_chars();
    let mut function_number = unknown_chars();
    if parts.len() > 2 {
        instance_id = copy_range(parts[2].as_slice(), 0, parts[2].len());
        let ip = split_chars(parts[2].as_slice(), '&');
        bus_number = copy_range(ip[0].as_slice(), 0, ip[0].len());
        if ip.len() >= 2 {
            feature_code = copy_range(ip[1].as_slice(), 0, ip[1].len());
        }
        if ip.len() >= 3 {
            device_number = copy_range(ip[2].as_slice(), 0, ip[2].len());
        }
        if ip.len() >= 4 {
            function_number = copy_range(ip[3].as_slice(), 0, ip[3].len());
        }
        proof {
            assert(parts@[2]@.subrange(0, parts@[2]@.len() as int) =~= parts@[2]@);
            assert(ip@[0]@.subrange(0, ip@[0]@.len() as int) =~= ip@[0]@);
            if ip@.len() >= 2 {
                assert(ip@[1]@.subrange(0, ip@[1]@.len() as int) =~= ip@[1]@);
            }
            if ip@.len() >= 3 {
                assert(ip@[2]@.subrange(0, ip@[2]@.len() as int) =~= ip@[2]@);
            }
            if ip@.len() >= 4 {
                assert(ip@[3]@.subrange(0, ip@[3]@.len() as int) =~= ip@[3]@);
            }
        }
    }
    DeviceInstanceIdInfo {
        id: string_of(s.as_slice()),
        bus_type: string_of(parts[0].as_slice()),
        vendor_id: string_of(h.vendor_id.as_slice()),
        device_id: string_of(h.device_id.as_slice()),
        subsystem_vendor_id: string_of(h.subsystem_vendor_id.as_slice()),
        subsystem_device_id: string_of(h.subsystem_device_id.as_slice()),
        revision_id: string_of(h.revision_id.as_slice()),
        bus_number: string_of(bus_number.as_slice()),
        instance_id: string_of(instance_id.as_slice()),
        feature_code: string_of(feature_code.as_slice()),
        device_number: string_of(device_number.as_slice()),
        function_number: string_of(function_number.as_slice()),
    }
}

} // verus!
