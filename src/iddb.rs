//! The device identifier database: two registries (PCI and USB) parsed from
//! the line-oriented `.ids` text format, and the lookup of vendor, device and
//! subsystem names in them.
use vstd::prelude::*;
use vstd::utf8::{decode_utf8, is_ascii_chars, valid_utf8};

use crate::text::{
    chars_eq, chars_of, copy_range, decode_range, find_char, first_sep, is_space, lower_ascii,
    lower_chars, lowercase, string_of, trim, trim_range, upper_chars, uppercase,
};

verus! {

// ---------------------------------------------------------------------------
// Identifier normalization
// ---------------------------------------------------------------------------

/// `s` with every leading repetition of the two-character prefix `p` removed,
/// as `str::trim_start_matches` removes it.
pub open spec fn strip_all(s: Seq<char>, p: Seq<char>) -> Seq<char>
    decreases s.len(),
{
    if p.len() > 0 && p.len() <= s.len() && s.subrange(0, p.len() as int) == p {
        strip_all(s.subrange(p.len() as int, s.len() as int), p)
    } else {
        s
    }
}

/// `s` left-padded with `'0'` to at least four characters.
pub open spec fn pad_id(s: Seq<char>) -> Seq<char> {
    if s.len() >= 4 {
        s
    } else {
        Seq::new((4 - s.len()) as nat, |i: int| '0') + s
    }
}

/// The normalized form of an identifier: white space trimmed, every leading
/// `0x` and then every leading `0X` removed, lower case, and the result
/// left-padded with zeros to at least four characters.
pub open spec fn normalize_id(s: Seq<char>) -> Seq<char> {
    pad_id(lowercase(strip_all(strip_all(trim(s), seq!['0', 'x']), seq!['0', 'X'])))
}

/// Position in `v` after every repetition of the prefix `a b` that starts at `lo`.
fn skip_prefixes(v: &[char], lo: usize, hi: usize, a: char, b: char) -> (r: usize)
    requires
        lo <= hi <= v@.len(),
    ensures
        lo <= r <= hi,
        strip_all(v@.subrange(lo as int, hi as int), seq![a, b]) == v@.subrange(
            r as int,
            hi as int,
        ),
{
    let mut i: usize = lo;
    while hi - i >= 2 && v[i] == a && v[i + 1] == b
        invariant
            lo <= i <= hi <= v@.len(),
            strip_all(v@.subrange(lo as int, hi as int), seq![a, b]) == strip_all(
                v@.subrange(i as int, hi as int),
                seq![a, b],
            ),
        decreases hi - i,
    {
        let ghost s = v@.subrange(i as int, hi as int);
        assert(s.subrange(0, 2) =~= seq![a, b]);
        assert(s.subrange(2, s.len() as int) =~= v@.subrange(i + 2, hi as int));
        i = i + 2;
    }
    proof {
        let s = v@.subrange(i as int, hi as int);
        if s.len() >= 2 {
            assert(s.subrange(0, 2) != seq![a, b]) by {
                if s.subrange(0, 2) == seq![a, b] {
                    assert(s.subrange(0, 2)[0] == a && s.subrange(0, 2)[1] == b);
                }
            }
        }
    }
    i
}

/// The normalized form of the identifier `id`.
pub fn normalize_chars(id: &[char]) -> (r: Vec<char>)
    ensures
        r@ == normalize_id(id@),
{
    let t = trim_range(id, 0, id.len());
    assert(id@.subrange(0, id@.len() as int) =~= id@);
    let n = t.len();
    let i = skip_prefixes(t.as_slice(), 0, n, '0', 'x');
    assert(t@.subrange(0, n as int) =~= t@);
    let j = skip_prefixes(t.as_slice(), i, n, '0', 'X');
    let stripped = copy_range(t.as_slice(), j, n);
    let lowered = lower_chars(stripped.as_slice());
    assert(lowered@ == lowercase(t@.subrange(j as int, n as int)));
    if lowered.len() >= 4 {
        lowered
    } else {
        let mut r: Vec<char> = Vec::new();
        let pad = 4 - lowered.len();
        let mut z: usize = 0;
        while z < pad
            invariant
                z <= pad,
                r@ =~= Seq::new(z as nat, |i: int| '0'),
            decreases pad - z,
        {
            r.push('0');
            z = z + 1;
            assert(r@ =~= Seq::new(z as nat, |i: int| '0'));
        }
        let mut m: usize = 0;
        while m < lowered.len()
            invariant
                m <= lowered@.len(),
                r@ =~= Seq::new(pad as nat, |i: int| '0') + lowered@.subrange(0, m as int),
            decreases lowered@.len() - m,
        {
            r.push(lowered[m]);
            m = m + 1;
            assert(r@ =~= Seq::new(pad as nat, |i: int| '0') + lowered@.subrange(0, m as int));
        }
        assert(lowered@.subrange(0, lowered@.len() as int) =~= lowered@);
        r
    }
}

} // verus!

verus! {

// ---------------------------------------------------------------------------
// Registry model
// ---------------------------------------------------------------------------

/// A device of a vendor: its id, its name, and its subsystem (PCI) or
/// interface (USB) entries as key/name pairs, in order of first appearance.
pub struct DeviceModel {
    pub id: Seq<char>,
    pub name: Seq<char>,
    pub subsystems: Seq<(Seq<char>, Seq<char>)>,
}

/// A vendor: its id, its name and its devices, in order of first appearance.
pub struct VendorModel {
    pub id: Seq<char>,
    pub name: Seq<char>,
    pub devices: Seq<DeviceModel>,
}

/// `i` is the first position of `k` in `ids`.
pub open spec fn is_first(ids: Seq<Seq<char>>, k: Seq<char>, i: int) -> bool {
    &&& 0 <= i < ids.len()
    &&& ids[i] == k
    &&& forall|j: int| 0 <= j < i ==> ids[j] != k
}

/// The first position of `k` in `ids`, or -1 where `k` does not occur.
pub open spec fn first_index(ids: Seq<Seq<char>>, k: Seq<char>) -> int {
    if exists|i: int| is_first(ids, k, i) {
        choose|i: int| is_first(ids, k, i)
    } else {
        -1
    }
}

pub open spec fn vendor_ids(db: Seq<VendorModel>) -> Seq<Seq<char>> {
    db.map_values(|v: VendorModel| v.id)
}

pub open spec fn device_ids(ds: Seq<DeviceModel>) -> Seq<Seq<char>> {
    ds.map_values(|d: DeviceModel| d.id)
}

pub open spec fn subsystem_keys(ss: Seq<(Seq<char>, Seq<char>)>) -> Seq<Seq<char>> {
    ss.map_values(|p: (Seq<char>, Seq<char>)| p.0)
}

/// Adds a vendor unless one with the same id is already there (the first one stays).
pub open spec fn add_vendor(db: Seq<VendorModel>, id: Seq<char>, name: Seq<char>) -> Seq<VendorModel> {
    if first_index(vendor_ids(db), id) >= 0 {
        db
    } else {
        db.push(VendorModel { id, name, devices: seq![] })
    }
}

/// Adds a device under vendor `vid` unless the vendor is missing or already has
/// a device with the same id (the first one stays).
pub open spec fn add_device(
    db: Seq<VendorModel>,
    vid: Seq<char>,
    did: Seq<char>,
    name: Seq<char>,
) -> Seq<VendorModel> {
    let vi = first_index(vendor_ids(db), vid);
    if vi < 0 {
        db
    } else {
        let v = db[vi];
        if first_index(device_ids(v.devices), did) >= 0 {
            db
        } else {
            db.update(
                vi,
                VendorModel {
                    devices: v.devices.push(DeviceModel { id: did, name, subsystems: seq![] }),
                    ..v
                },
            )
        }
    }
}

/// Sets the subsystem `key` of device `did` of vendor `vid` to `name`, replacing
/// the name of an entry with the same key; nothing where vendor or device is missing.
pub open spec fn set_subsystem(
    db: Seq<VendorModel>,
    vid: Seq<char>,
    did: Seq<char>,
    key: Seq<char>,
    name: Seq<char>,
) -> Seq<VendorModel> {
    let vi = first_index(vendor_ids(db), vid);
    if vi < 0 {
        db
    } else {
        let v = db[vi];
        let di = first_index(device_ids(v.devices), did);
        if di < 0 {
            db
        } else {
            let d = v.devices[di];
            let si = first_index(subsystem_keys(d.subsystems), key);
            let subs = if si >= 0 {
                d.subsystems.update(si, (key, name))
            } else {
                d.subsystems.push((key, name))
            };
            db.update(
                vi,
                VendorModel { devices: v.devices.update(di, DeviceModel { subsystems: subs, ..d }), ..v },
            )
        }
    }
}

// ---------------------------------------------------------------------------
// Parse specification
// ---------------------------------------------------------------------------

/// What the parser knows between two lines: the registry so far, and the ids
/// of the last vendor line and of the last device line since it.
pub struct ParseState {
    pub db: Seq<VendorModel>,
    pub vendor: Option<Seq<char>>,
    pub device: Option<Seq<char>>,
}

pub open spec fn initial_state() -> ParseState {
    ParseState { db: seq![], vendor: None, device: None }
}

/// The number of tab characters that `s` starts with.
pub open spec fn leading_tabs(s: Seq<char>) -> nat
    decreases s.len(),
{
    if s.len() > 0 && s[0] == '\t' {
        1 + leading_tabs(s.drop_first())
    } else {
        0
    }
}

/// Two spaces stand at positions `i` and `i + 1` of `t`.
pub open spec fn is_gap(t: Seq<char>, i: int) -> bool {
    0 <= i && i + 1 < t.len() && t[i] == ' ' && t[i + 1] == ' '
}

/// `i` is the first position of two consecutive spaces in `t`.
pub open spec fn is_first_gap(t: Seq<char>, i: int) -> bool {
    &&& is_gap(t, i)
    &&& forall|j: int| 0 <= j < i ==> !#[trigger] is_gap(t, j)
}

/// Where `str::split_once("  ")` splits `t`, or -1 where it does not.
pub open spec fn first_gap(t: Seq<char>) -> int {
    if exists|i: int| is_first_gap(t, i) {
        choose|i: int| is_first_gap(t, i)
    } else {
        -1
    }
}

/// The key of a subsystem line's id: each of its (at most two) space-separated
/// ids normalized, one space between them.
pub open spec fn subsystem_key_of(id: Seq<char>) -> Seq<char> {
    let k = first_sep(id, ' ');
    if k < 0 {
        normalize_id(id)
    } else {
        normalize_id(id.subrange(0, k)) + seq![' '] + normalize_id(id.subrange(k + 1, id.len() as int))
    }
}

/// One decoded line of a registry applied to the parser state. Vendor and
/// device ids are stored normalized, subsystem ids as [`subsystem_key_of`].
pub open spec fn line_step(st: ParseState, l: Seq<char>) -> ParseState {
    let t = trim(l);
    let g = first_gap(t);
    let raw_id = trim(t.subrange(0, g));
    let id = normalize_id(raw_id);
    let name = trim(t.subrange(g + 2, t.len() as int));
    let level = leading_tabs(l);
    if t.len() == 0 || t[0] == '#' || g < 0 {
        st
    } else if level == 0 {
        ParseState { db: add_vendor(st.db, id, name), vendor: Some(id), device: None }
    } else if level == 1 {
        match st.vendor {
            Some(v) => ParseState { db: add_device(st.db, v, id, name), vendor: st.vendor, device: Some(id) },
            None => st,
        }
    } else if level == 2 {
        match (st.vendor, st.device) {
            (Some(v), Some(d)) => ParseState {
                db: set_subsystem(st.db, v, d, subsystem_key_of(raw_id), name),
                ..st
            },
            _ => st,
        }
    } else {
        st
    }
}

/// One line of raw bytes: a line that is not valid UTF-8 is skipped.
pub open spec fn raw_line_step(st: ParseState, l: Seq<u8>) -> ParseState {
    if valid_utf8(l) {
        line_step(st, decode_utf8(l))
    } else {
        st
    }
}

/// `i` is the position of the first newline byte in `b`.
pub open spec fn is_first_newline(b: Seq<u8>, i: int) -> bool {
    &&& 0 <= i < b.len()
    &&& b[i] == 10
    &&& forall|j: int| 0 <= j < i ==> b[j] != 10
}

/// The lines of `b`: the pieces between newline bytes, without an empty last piece.
pub open spec fn split_lines(b: Seq<u8>) -> Seq<Seq<u8>>
    decreases b.len(),
{
    if exists|i: int| is_first_newline(b, i) {
        let i = choose|i: int| is_first_newline(b, i);
        seq![b.subrange(0, i)] + split_lines(b.subrange(i + 1, b.len() as int))
    } else if b.len() == 0 {
        seq![]
    } else {
        seq![b]
    }
}

/// The lines applied one after another, from the first.
pub open spec fn run_lines(st: ParseState, ls: Seq<Seq<u8>>) -> ParseState
    decreases ls.len(),
{
    if ls.len() == 0 {
        st
    } else {
        run_lines(raw_line_step(st, ls[0]), ls.drop_first())
    }
}

/// The registry that the text `b` describes.
pub open spec fn parse_registry(b: Seq<u8>) -> Seq<VendorModel> {
    run_lines(initial_state(), split_lines(b)).db
}

} // verus!

verus! {

// ---------------------------------------------------------------------------
// Executable registry
// ---------------------------------------------------------------------------

struct DeviceEntry {
    id: Vec<char>,
    name: String,
    /// For PCI the key is "sub_vendor sub_device"; for USB the interface id.
    subsystems: Vec<(Vec<char>, String)>,
}

struct VendorEntry {
    id: Vec<char>,
    name: String,
    devices: Vec<DeviceEntry>,
}

spec fn subsystems_view(ss: Seq<(Vec<char>, String)>) -> Seq<(Seq<char>, Seq<char>)> {
    ss.map_values(|p: (Vec<char>, String)| (p.0@, p.1@))
}

impl View for DeviceEntry {
    type V = DeviceModel;

    closed spec fn view(&self) -> DeviceModel {
        DeviceModel { id: self.id@, name: self.name@, subsystems: subsystems_view(self.subsystems@) }
    }
}

spec fn devices_view(ds: Seq<DeviceEntry>) -> Seq<DeviceModel> {
    ds.map_values(|d: DeviceEntry| d@)
}

impl View for VendorEntry {
    type V = VendorModel;

    closed spec fn view(&self) -> VendorModel {
        VendorModel { id: self.id@, name: self.name@, devices: devices_view(self.devices@) }
    }
}

spec fn registry_view(vs: Seq<VendorEntry>) -> Seq<VendorModel> {
    vs.map_values(|v: VendorEntry| v@)
}

proof fn lemma_first_unique(ids: Seq<Seq<char>>, k: Seq<char>, i: int)
    requires
        is_first(ids, k, i),
    ensures
        first_index(ids, k) == i,
{
    let j = first_index(ids, k);
    assert(is_first(ids, k, j));
    if j < i {
        assert(ids[j] != k);
    }
    if i < j {
        assert(ids[i] != k);
    }
}

proof fn lemma_first_absent(ids: Seq<Seq<char>>, k: Seq<char>)
    requires
        forall|j: int| 0 <= j < ids.len() ==> ids[j] != k,
    ensures
        first_index(ids, k) == -1,
{
    if exists|i: int| is_first(ids, k, i) {
        let i = choose|i: int| is_first(ids, k, i);
        assert(ids[i] == k);
    }
}

proof fn lemma_first_push(ids: Seq<Seq<char>>, x: Seq<char>, k: Seq<char>)
    requires
        first_index(ids, k) >= 0,
    ensures
        first_index(ids.push(x), k) == first_index(ids, k),
{
    let i = first_index(ids, k);
    assert(is_first(ids, k, i));
    assert(is_first(ids.push(x), k, i));
    lemma_first_unique(ids.push(x), k, i);
}

proof fn lemma_first_push_new(ids: Seq<Seq<char>>, k: Seq<char>)
    requires
        forall|j: int| 0 <= j < ids.len() ==> ids[j] != k,
    ensures
        first_index(ids.push(k), k) == ids.len(),
{
    assert(is_first(ids.push(k), k, ids.len() as int));
    lemma_first_unique(ids.push(k), k, ids.len() as int);
}

fn find_vendor(vs: &Vec<VendorEntry>, id: &[char]) -> (r: Option<usize>)
    ensures
        match r {
            Some(i) => i < vs@.len() && first_index(vendor_ids(registry_view(vs@)), id@) == i,
            None => first_index(vendor_ids(registry_view(vs@)), id@) == -1 && forall|j: int|
                0 <= j < vs@.len() ==> vendor_ids(registry_view(vs@))[j] != id@,
        },
{
    let ghost ids = vendor_ids(registry_view(vs@));
    let mut i: usize = 0;
    while i < vs.len()
        invariant
            i <= vs@.len() == ids.len(),
            ids == vendor_ids(registry_view(vs@)),
            forall|j: int| 0 <= j < i ==> ids[j] != id@,
        decreases vs@.len() - i,
    {
        if chars_eq(vs[i].id.as_slice(), id) {
            proof {
                assert(is_first(ids, id@, i as int));
                lemma_first_unique(ids, id@, i as int);
            }
            return Some(i);
        }
        i = i + 1;
    }
    proof {
        lemma_first_absent(ids, id@);
    }
    None
}

fn find_device(ds: &Vec<DeviceEntry>, id: &[char]) -> (r: Option<usize>)
    ensures
        match r {
            Some(i) => i < ds@.len() && first_index(device_ids(devices_view(ds@)), id@) == i,
            None => first_index(device_ids(devices_view(ds@)), id@) == -1 && forall|j: int|
                0 <= j < ds@.len() ==> device_ids(devices_view(ds@))[j] != id@,
        },
{
    let ghost ids = device_ids(devices_view(ds@));
    let mut i: usize = 0;
    while i < ds.len()
        invariant
            i <= ds@.len() == ids.len(),
            ids == device_ids(devices_view(ds@)),
            forall|j: int| 0 <= j < i ==> ids[j] != id@,
        decreases ds@.len() - i,
    {
        if chars_eq(ds[i].id.as_slice(), id) {
            proof {
                assert(is_first(ids, id@, i as int));
                lemma_first_unique(ids, id@, i as int);
            }
            return Some(i);
        }
        i = i + 1;
    }
    proof {
        lemma_first_absent(ids, id@);
    }
    None
}

fn find_subsystem(ss: &Vec<(Vec<char>, String)>, key: &[char]) -> (r: Option<usize>)
    ensures
        match r {
            Some(i) => i < ss@.len() && first_index(subsystem_keys(subsystems_view(ss@)), key@)
                == i,
            None => first_index(subsystem_keys(subsystems_view(ss@)), key@) == -1 && forall|j: int|
                0 <= j < ss@.len() ==> subsystem_keys(subsystems_view(ss@))[j] != key@,
        },
{
    let ghost ids = subsystem_keys(subsystems_view(ss@));
    let mut i: usize = 0;
    while i < ss.len()
        invariant
            i <= ss@.len() == ids.len(),
            ids == subsystem_keys(subsystems_view(ss@)),
            forall|j: int| 0 <= j < i ==> ids[j] != key@,
        decreases ss@.len() - i,
    {
        if chars_eq(ss[i].0.as_slice(), key) {
            proof {
                assert(is_first(ids, key@, i as int));
                lemma_first_unique(ids, key@, i as int);
            }
            return Some(i);
        }
        i = i + 1;
    }
    proof {
        lemma_first_absent(ids, key@);
    }
    None
}

} // verus!

verus! {

// ---------------------------------------------------------------------------
// Parser
// ---------------------------------------------------------------------------

/// The executable cursors (positions of the current vendor and device) agree
/// with the parse state `st`, and `db` is its registry.
spec fn cursors_match(db: Seq<VendorModel>, cv: Option<usize>, cd: Option<usize>, st: ParseState) -> bool {
    &&& db == st.db
    &&& match st.vendor {
        None => cv is None && cd is None && st.device is None,
        Some(v) => {
            &&& cv is Some
            &&& cv->0 < db.len()
            &&& first_index(vendor_ids(db), v) == cv->0
            &&& match st.device {
                None => cd is None,
                Some(d) => {
                    &&& cd is Some
                    &&& cd->0 < db[cv->0 as int].devices.len()
                    &&& first_index(device_ids(db[cv->0 as int].devices), d) == cd->0
                },
            }
        },
    }
}

fn leading_tab_count(l: &[char]) -> (r: usize)
    ensures
        r == leading_tabs(l@),
{
    let mut i: usize = 0;
    assert(l@.subrange(0, l@.len() as int) =~= l@);
    while i < l.len() && l[i] == '\t'
        invariant
            i <= l@.len(),
            leading_tabs(l@) == i + leading_tabs(l@.subrange(i as int, l@.len() as int)),
        decreases l@.len() - i,
    {
        assert(l@.subrange(i as int, l@.len() as int).drop_first() =~= l@.subrange(
            i + 1,
            l@.len() as int,
        ));
        i = i + 1;
    }
    i
}

proof fn lemma_gap_unique(t: Seq<char>, i: int)
    requires
        is_first_gap(t, i),
    ensures
        first_gap(t) == i,
{
    let j = first_gap(t);
    assert(is_first_gap(t, j));
    if j < i {
        assert(!is_gap(t, j));
    }
    if i < j {
        assert(!is_gap(t, i));
    }
}

fn find_gap(t: &[char]) -> (r: Option<usize>)
    ensures
        match r {
            Some(g) => first_gap(t@) == g && g + 1 < t@.len(),
            None => first_gap(t@) == -1,
        },
{
    let mut i: usize = 0;
    while t.len() >= 2 && i < t.len() - 1
        invariant
            forall|j: int| 0 <= j < i ==> !#[trigger] is_gap(t@, j),
        decreases t@.len() - i,
    {
        if t[i] == ' ' && t[i + 1] == ' ' {
            proof {
                assert(is_first_gap(t@, i as int));
                lemma_gap_unique(t@, i as int);
            }
            return Some(i);
        }
        i = i + 1;
    }
    proof {
        if exists|j: int| is_first_gap(t@, j) {
            let j = choose|j: int| is_first_gap(t@, j);
            assert(is_gap(t@, j));
        }
    }
    None
}

/// The stored key of a subsystem line's id.
fn subsystem_key(id: &[char]) -> (r: Vec<char>)
    ensures
        r@ == subsystem_key_of(id@),
{
    match find_char(id, ' ') {
        Some(k) => {
            let n = id.len();
            let left = copy_range(id, 0, k);
            let right = copy_range(id, k + 1, n);
            let mut r = normalize_chars(left.as_slice());
            let mut second = normalize_chars(right.as_slice());
            r.push(' ');
            r.append(&mut second);
            assert(r@ =~= subsystem_key_of(id@));
            r
        },
        None => normalize_chars(id),
    }
}

/// Applies one decoded line to the registry and the cursors.
fn apply_line(
    db: &mut Vec<VendorEntry>,
    cv: &mut Option<usize>,
    cd: &mut Option<usize>,
    l: &[char],
    Ghost(st): Ghost<ParseState>,
)
    requires
        cursors_match(registry_view(old(db)@), *old(cv), *old(cd), st),
    ensures
        cursors_match(registry_view(final(db)@), *final(cv), *final(cd), line_step(st, l@)),
{
    let ghost db0 = registry_view(db@);
    let t = trim_range(l, 0, l.len());
    assert(l@.subrange(0, l@.len() as int) =~= l@);
    if t.len() == 0 || t[0] == '#' {
        return ;
    }
    let g = match find_gap(t.as_slice()) {
        Some(g) => g,
        None => {
            return ;
        },
    };
    let raw_id = trim_range(t.as_slice(), 0, g);
    let name_chars = trim_range(t.as_slice(), g + 2, t.len());
    let name = string_of(name_chars.as_slice());
    let level = leading_tab_count(l);
    let id = if level == 2 {
        subsystem_key(raw_id.as_slice())
    } else {
        normalize_chars(raw_id.as_slice())
    };
    let ghost gid = id@;
    let ghost gname = name@;
    if level == 0 {
        match find_vendor(db, id.as_slice()) {
            Some(i) => {
                *cv = Some(i);
            },
            None => {
                let n = db.len();
                db.push(VendorEntry { id, name, devices: Vec::new() });
                proof {
                    assert(devices_view(db@[n as int].devices@) =~= seq![]);
                    assert(registry_view(db@) =~= db0.push(
                        VendorModel { id: gid, name: gname, devices: seq![] },
                    ));
                    assert(vendor_ids(registry_view(db@)) =~= vendor_ids(db0).push(gid));
                    lemma_first_push_new(vendor_ids(db0), gid);
                }
                *cv = Some(n);
            },
        }
        *cd = None;
    } else if level == 1 {
        match *cv {
            None => {},
            Some(vi) => {
                match find_device(&db[vi].devices, id.as_slice()) {
                    Some(di) => {
                        *cd = Some(di);
                    },
                    None => {
                        let ghost v0 = db0[vi as int];
                        let n = db[vi].devices.len();
                        db[vi].devices.push(DeviceEntry { id, name, subsystems: Vec::new() });
                        proof {
                            let nd = DeviceModel { id: gid, name: gname, subsystems: seq![] };
                            assert(subsystems_view(db@[vi as int].devices@[n as int].subsystems@)
                                =~= seq![]);
                            assert(devices_view(db@[vi as int].devices@) =~= v0.devices.push(nd));
                            assert(registry_view(db@) =~= db0.update(
                                vi as int,
                                VendorModel { devices: v0.devices.push(nd), ..v0 },
                            ));
                            assert(vendor_ids(registry_view(db@)) =~= vendor_ids(db0));
                            assert(device_ids(v0.devices.push(nd)) =~= device_ids(v0.devices).push(
                                gid,
                            ));
                            lemma_first_push_new(device_ids(v0.devices), gid);
                        }
                        *cd = Some(n);
                    },
                }
            },
        }
    } else if level == 2 {
        match (*cv, *cd) {
            (Some(vi), Some(di)) => {
                let ghost v0 = db0[vi as int];
                let ghost d0 = v0.devices[di as int];
                match find_subsystem(&db[vi].devices[di].subsystems, id.as_slice()) {
                    Some(si) => {
                        db[vi].devices[di].subsystems[si] = (id, name);
                        proof {
                            let subs = d0.subsystems.update(si as int, (gid, gname));
                            assert(subsystems_view(db@[vi as int].devices@[di as int].subsystems@)
                                =~= subs);
                            let nd = DeviceModel { subsystems: subs, ..d0 };
                            assert(devices_view(db@[vi as int].devices@) =~= v0.devices.update(
                                di as int,
                                nd,
                            ));
                            assert(registry_view(db@) =~= db0.update(
                                vi as int,
                                VendorModel { devices: v0.devices.update(di as int, nd), ..v0 },
                            ));
                            assert(vendor_ids(registry_view(db@)) =~= vendor_ids(db0));
                            assert(device_ids(v0.devices.update(di as int, nd)) =~= device_ids(
                                v0.devices,
                            ));
                        }
                    },
                    None => {
                        db[vi].devices[di].subsystems.push((id, name));
                        proof {
                            let subs = d0.subsystems.push((gid, gname));
                            assert(subsystems_view(db@[vi as int].devices@[di as int].subsystems@)
                                =~= subs);
                            let nd = DeviceModel { subsystems: subs, ..d0 };
                            assert(devices_view(db@[vi as int].devices@) =~= v0.devices.update(
                                di as int,
                                nd,
                            ));
                            assert(registry_view(db@) =~= db0.update(
                                vi as int,
                                VendorModel { devices: v0.devices.update(di as int, nd), ..v0 },
                            ));
                            assert(vendor_ids(registry_view(db@)) =~= vendor_ids(db0));
                            assert(device_ids(v0.devices.update(di as int, nd)) =~= device_ids(
                                v0.devices,
                            ));
                        }
                    },
                }
            },
            _ => {},
        }
    }
}

} // verus!

verus! {

proof fn lemma_split_at_newline(b: Seq<u8>, i: int)
    requires
        is_first_newline(b, i),
    ensures
        split_lines(b) == seq![b.subrange(0, i)] + split_lines(b.subrange(i + 1, b.len() as int)),
{
    let j = choose|j: int| is_first_newline(b, j);
    assert(is_first_newline(b, j));
    if j < i {
        assert(b[j] != 10);
    }
    if i < j {
        assert(b[i] != 10);
    }
}

proof fn lemma_split_no_newline(b: Seq<u8>)
    requires
        forall|j: int| 0 <= j < b.len() ==> b[j] != 10,
    ensures
        split_lines(b) == (if b.len() == 0 {
            Seq::<Seq<u8>>::empty()
        } else {
            seq![b]
        }),
{
    if exists|i: int| is_first_newline(b, i) {
        let i = choose|i: int| is_first_newline(b, i);
        assert(b[i] == 10);
    }
}

proof fn lemma_run_first(st: ParseState, x: Seq<u8>, rest: Seq<Seq<u8>>)
    ensures
        run_lines(st, seq![x] + rest) == run_lines(raw_line_step(st, x), rest),
{
    assert((seq![x] + rest).drop_first() =~= rest);
}

/// Decodes and applies the line `content[lo..hi]`.
fn apply_raw_line(
    db: &mut Vec<VendorEntry>,
    cv: &mut Option<usize>,
    cd: &mut Option<usize>,
    content: &[u8],
    lo: usize,
    hi: usize,
    Ghost(st): Ghost<ParseState>,
)
    requires
        lo <= hi <= content@.len(),
        cursors_match(registry_view(old(db)@), *old(cv), *old(cd), st),
    ensures
        cursors_match(
            registry_view(final(db)@),
            *final(cv),
            *final(cd),
            raw_line_step(st, content@.subrange(lo as int, hi as int)),
        ),
{
    match decode_range(content, lo, hi) {
        Some(l) => apply_line(db, cv, cd, l.as_slice(), Ghost(st)),
        None => {},
    }
}

/// Parses a registry in the `.ids` text format.
fn build_registry(content: &[u8]) -> (r: Vec<VendorEntry>)
    ensures
        registry_view(r@) == parse_registry(content@),
{
    let mut db: Vec<VendorEntry> = Vec::new();
    let mut cv: Option<usize> = None;
    let mut cd: Option<usize> = None;
    let ghost mut st = initial_state();
    let n = content.len();
    let mut start: usize = 0;
    let mut i: usize = 0;
    assert(registry_view(db@) =~= seq![]);
    assert(content@.subrange(0, n as int) =~= content@);
    while i < n
        invariant
            n == content@.len(),
            start <= i <= n,
            cursors_match(registry_view(db@), cv, cd, st),
            run_lines(st, split_lines(content@.subrange(start as int, n as int))).db == parse_registry(
                content@,
            ),
            forall|j: int| start <= j < i ==> content@[j] != 10,
        decreases n - i,
    {
        if content[i] == 10u8 {
            proof {
                let b = content@.subrange(start as int, n as int);
                let k = i - start;
                assert(is_first_newline(b, k));
                lemma_split_at_newline(b, k);
                assert(b.subrange(0, k) =~= content@.subrange(start as int, i as int));
                assert(b.subrange(k + 1, b.len() as int) =~= content@.subrange(i + 1, n as int));
                lemma_run_first(
                    st,
                    content@.subrange(start as int, i as int),
                    split_lines(content@.subrange(i + 1, n as int)),
                );
            }
            apply_raw_line(&mut db, &mut cv, &mut cd, content, start, i, Ghost(st));
            proof {
                st = raw_line_step(st, content@.subrange(start as int, i as int));
            }
            start = i + 1;
        }
        i = i + 1;
    }
    proof {
        lemma_split_no_newline(content@.subrange(start as int, n as int));
    }
    if start < n {
        proof {
            let b = content@.subrange(start as int, n as int);
            lemma_run_first(st, b, seq![]);
            assert(seq![b] + Seq::<Seq<u8>>::empty() =~= seq![b]);
        }
        apply_raw_line(&mut db, &mut cv, &mut cd, content, start, n, Ghost(st));
        proof {
            st = raw_line_step(st, content@.subrange(start as int, n as int));
        }
    }
    db
}

} // verus!

verus! {

// ---------------------------------------------------------------------------
// Database and lookup
// ---------------------------------------------------------------------------

#[verifier::external_type_specification]
#[verifier::external_body]
pub struct ExIoError(std::io::Error);

/// The names found by a lookup.
#[derive(Debug, Clone)]
pub struct DeviceDescription {
    pub vendor_name: String,
    pub device_name: Option<String>,
    pub subsystem_name: Option<String>,
}

/// The model of a [`DeviceDescription`].
pub struct DescriptionModel {
    pub vendor_name: Seq<char>,
    pub device_name: Option<Seq<char>>,
    pub subsystem_name: Option<Seq<char>>,
}

pub open spec fn opt_string_view(o: Option<String>) -> Option<Seq<char>> {
    match o {
        Some(s) => Some(s@),
        None => None,
    }
}

pub open spec fn opt_str_view(o: Option<&str>) -> Option<Seq<char>> {
    match o {
        Some(s) => Some(s@),
        None => None,
    }
}

impl View for DeviceDescription {
    type V = DescriptionModel;

    open spec fn view(&self) -> DescriptionModel {
        DescriptionModel {
            vendor_name: self.vendor_name@,
            device_name: opt_string_view(self.device_name),
            subsystem_name: opt_string_view(self.subsystem_name),
        }
    }
}

pub open spec fn opt_description_view(o: Option<DeviceDescription>) -> Option<DescriptionModel> {
    match o {
        Some(d) => Some(d@),
        None => None,
    }
}

/// The model of a [`DeviceIdDatabase`]: the PCI and the USB registry.
pub struct DatabaseModel {
    pub pci: Seq<VendorModel>,
    pub usb: Seq<VendorModel>,
}

/// The device identifier database: a PCI and a USB registry, read-only once built.
pub struct DeviceIdDatabase {
    pci_db: Vec<VendorEntry>,
    usb_db: Vec<VendorEntry>,
}

impl View for DeviceIdDatabase {
    type V = DatabaseModel;

    closed spec fn view(&self) -> DatabaseModel {
        DatabaseModel { pci: registry_view(self.pci_db@), usb: registry_view(self.usb_db@) }
    }
}

/// The name of the entry with key `key` in `ss`, if any.
pub open spec fn subsystem_name_of(ss: Seq<(Seq<char>, Seq<char>)>, key: Seq<char>) -> Option<
    Seq<char>,
> {
    let si = first_index(subsystem_keys(ss), key);
    if si < 0 {
        None
    } else {
        Some(ss[si].1)
    }
}

/// The key of a PCI subsystem entry: both ids normalized, one space between.
pub open spec fn pci_subsystem_key(svid: Seq<char>, sdid: Seq<char>) -> Seq<char> {
    normalize_id(svid) + seq![' '] + normalize_id(sdid)
}

/// The subsystem or interface name for a device that was found: for PCI from
/// both subsystem ids, for USB from the first one, taken as the interface id.
pub open spec fn subsystem_of(
    d: DeviceModel,
    pci: bool,
    svid: Option<Seq<char>>,
    sdid: Option<Seq<char>>,
) -> Option<Seq<char>> {
    if pci {
        match (svid, sdid) {
            (Some(a), Some(b)) => subsystem_name_of(d.subsystems, pci_subsystem_key(a, b)),
            _ => None,
        }
    } else {
        match svid {
            Some(a) => subsystem_name_of(d.subsystems, normalize_id(a)),
            None => None,
        }
    }
}

/// Lookup in one registry.
pub open spec fn lookup_in(
    reg: Seq<VendorModel>,
    pci: bool,
    vid: Seq<char>,
    did: Option<Seq<char>>,
    svid: Option<Seq<char>>,
    sdid: Option<Seq<char>>,
) -> Option<DescriptionModel> {
    let vi = first_index(vendor_ids(reg), normalize_id(vid));
    if vi < 0 {
        None
    } else {
        let v = reg[vi];
        match did {
            None => Some(DescriptionModel { vendor_name: v.name, device_name: None, subsystem_name: None }),
            Some(d) => {
                let di = first_index(device_ids(v.devices), normalize_id(d));
                if di < 0 {
                    Some(DescriptionModel { vendor_name: v.name, device_name: None, subsystem_name: None })
                } else {
                    let dev = v.devices[di];
                    Some(
                        DescriptionModel {
                            vendor_name: v.name,
                            device_name: Some(dev.name),
                            subsystem_name: subsystem_of(dev, pci, svid, sdid),
                        },
                    )
                }
            },
        }
    }
}

/// What `lookup` returns: the bus type, in upper case, picks the PCI or the
/// USB registry, and any other bus type gives no result.
pub open spec fn lookup_spec(
    db: DatabaseModel,
    bus: Seq<char>,
    vid: Seq<char>,
    did: Option<Seq<char>>,
    svid: Option<Seq<char>>,
    sdid: Option<Seq<char>>,
) -> Option<DescriptionModel> {
    lookup_by_upper(db, uppercase(bus), vid, did, svid, sdid)
}

/// What `lookup` returns once the bus type is in upper case: `PCI` and `USB`
/// pick a registry, and any other bus type gives no result.
pub open spec fn lookup_by_upper(
    db: DatabaseModel,
    up: Seq<char>,
    vid: Seq<char>,
    did: Option<Seq<char>>,
    svid: Option<Seq<char>>,
    sdid: Option<Seq<char>>,
) -> Option<DescriptionModel> {
    if up == seq!['P', 'C', 'I'] {
        lookup_in(db.pci, true, vid, did, svid, sdid)
    } else if up == seq!['U', 'S', 'B'] {
        lookup_in(db.usb, false, vid, did, svid, sdid)
    } else {
        None
    }
}

fn is_word3(s: &[char], a: char, b: char, c: char) -> (r: bool)
    ensures
        r == (s@ == seq![a, b, c]),
{
    if s.len() == 3 && s[0] == a && s[1] == b && s[2] == c {
        assert(s@ =~= seq![a, b, c]);
        true
    } else {
        proof {
            if s@ == seq![a, b, c] {
                assert(s@[0] == a && s@[1] == b && s@[2] == c);
            }
        }
        false
    }
}

fn normalize_str(id: &str) -> (r: Vec<char>)
    ensures
        r@ == normalize_id(id@),
{
    let c = chars_of(id);
    normalize_chars(c.as_slice())
}

fn subsystem_lookup(ss: &Vec<(Vec<char>, String)>, key: &[char]) -> (r: Option<String>)
    ensures
        opt_string_view(r) == subsystem_name_of(subsystems_view(ss@), key@),
{
    match find_subsystem(ss, key) {
        Some(si) => Some(ss[si].1.clone()),
        None => None,
    }
}

fn device_subsystem(
    d: &DeviceEntry,
    pci: bool,
    svid: Option<&str>,
    sdid: Option<&str>,
) -> (r: Option<String>)
    ensures
        opt_string_view(r) == subsystem_of(d@, pci, opt_str_view(svid), opt_str_view(sdid)),
{
    if pci {
        match (svid, sdid) {
            (Some(a), Some(b)) => {
                let mut key = normalize_str(a);
                let mut second = normalize_str(b);
                key.push(' ');
                key.append(&mut second);
                assert(key@ =~= pci_subsystem_key(a@, b@));
                subsystem_lookup(&d.subsystems, key.as_slice())
            },
            _ => None,
        }
    } else {
        match svid {
            Some(a) => {
                let key = normalize_str(a);
                subsystem_lookup(&d.subsystems, key.as_slice())
            },
            None => None,
        }
    }
}

fn lookup_registry(
    reg: &Vec<VendorEntry>,
    pci: bool,
    vendor_id: &str,
    device_id: Option<&str>,
    svid: Option<&str>,
    sdid: Option<&str>,
) -> (r: Option<DeviceDescription>)
    ensures
        opt_description_view(r) == lookup_in(
            registry_view(reg@),
            pci,
            vendor_id@,
            opt_str_view(device_id),
            opt_str_view(svid),
            opt_str_view(sdid),
        ),
{
    let vid = normalize_str(vendor_id);
    let vi = match find_vendor(reg, vid.as_slice()) {
        Some(i) => i,
        None => {
            return None;
        },
    };
    let v = &reg[vi];
    let mut device_name: Option<String> = None;
    let mut subsystem_name: Option<String> = None;
    match device_id {
        Some(d) => {
            let did = normalize_str(d);
            match find_device(&v.devices, did.as_slice()) {
                Some(di) => {
                    let dev = &v.devices[di];
                    device_name = Some(dev.name.clone());
                    subsystem_name = device_subsystem(dev, pci, svid, sdid);
                },
                None => {},
            }
        },
        None => {},
    }
    Some(DeviceDescription { vendor_name: v.name.clone(), device_name, subsystem_name })
}

impl DeviceIdDatabase {
    /// Builds the database from the PCI and the USB registry text. Lines that
    /// cannot be read are skipped, so this never fails.
    pub fn new(pci_content: &[u8], usb_content: &[u8]) -> (r: std::io::Result<Self>)
        ensures
            r is Ok,
            r matches Ok(db) ==> db@ == (DatabaseModel {
                pci: parse_registry(pci_content@),
                usb: parse_registry(usb_content@),
            }),
            r matches Ok(db) ==> registry_unique(db@.pci) && registry_unique(db@.usb),
    {
        let pci_db = Self::load_ids_content(pci_content);
        let usb_db = Self::load_ids_content(usb_content);
        proof {
            lemma_parse_keys_unique(pci_content@);
            lemma_parse_keys_unique(usb_content@);
        }
        Ok(Self { pci_db, usb_db })
    }

    /// Parses one registry in the `.ids` text format.
    fn load_ids_content(content: &[u8]) -> (r: Vec<VendorEntry>)
        ensures
            registry_view(r@) == parse_registry(content@),
    {
        build_registry(content)
    }

    /// Looks up the names for a bus type ("PCI" or "USB", in any case, as `str::to_uppercase` folds it), a
    /// vendor id and optionally a device id and subsystem ids. For USB the
    /// first subsystem id is the interface id and the second is not used.
    pub fn lookup(
        &self,
        bus_type: &str,
        vendor_id: &str,
        device_id: Option<&str>,
        subsystem_vendor_id: Option<&str>,
        subsystem_device_id: Option<&str>,
    ) -> (r: Option<DeviceDescription>)
        ensures
            opt_description_view(r) == lookup_spec(
                self@,
                bus_type@,
                vendor_id@,
                opt_str_view(device_id),
                opt_str_view(subsystem_vendor_id),
                opt_str_view(subsystem_device_id),
            ),
    {
        let bus = upper_chars(chars_of(bus_type).as_slice());
        let up = string_of(bus.as_slice());
        self.lookup_upper(
            up.as_str(),
            vendor_id,
            device_id,
            subsystem_vendor_id,
            subsystem_device_id,
        )
    }

    /// Looks up the names for a bus type that is already in upper case.
    pub fn lookup_upper(
        &self,
        bus_upper: &str,
        vendor_id: &str,
        device_id: Option<&str>,
        subsystem_vendor_id: Option<&str>,
        subsystem_device_id: Option<&str>,
    ) -> (r: Option<DeviceDescription>)
        ensures
            opt_description_view(r) == lookup_by_upper(
                self@,
                bus_upper@,
                vendor_id@,
                opt_str_view(device_id),
                opt_str_view(subsystem_vendor_id),
                opt_str_view(subsystem_device_id),
            ),
    {
        let bus = chars_of(bus_upper);
        if is_word3(bus.as_slice(), 'P', 'C', 'I') {
            lookup_registry(
                &self.pci_db,
                true,
                vendor_id,
                device_id,
                subsystem_vendor_id,
                subsystem_device_id,
            )
        } else if is_word3(bus.as_slice(), 'U', 'S', 'B') {
            lookup_registry(
                &self.usb_db,
                false,
                vendor_id,
                device_id,
                subsystem_vendor_id,
                subsystem_device_id,
            )
        } else {
            None
        }
    }

    /// The normalized form of an id: trimmed, `0x`/`0X` prefixes removed,
    /// lower case, left-padded with zeros to at least four characters.
    pub fn format_id(id: &str) -> (r: String)
        ensures
            r@ == normalize_id(id@),
    {
        let c = normalize_str(id);
        string_of(c.as_slice())
    }
}

impl Default for DeviceIdDatabase {
    fn default() -> (r: Self)
        ensures
            r@ == (DatabaseModel { pci: seq![], usb: seq![] }),
    {
        let r = Self { pci_db: Vec::new(), usb_db: Vec::new() };
        assert(registry_view(r.pci_db@) =~= seq![]);
        assert(registry_view(r.usb_db@) =~= seq![]);
        r
    }
}

} // verus!

verus! {

// ---------------------------------------------------------------------------
// Laws of normalization
// ---------------------------------------------------------------------------

pub open spec fn is_hex_digit(c: char) -> bool {
    ||| '0' <= c <= '9'
    ||| 'a' <= c <= 'f'
    ||| 'A' <= c <= 'F'
}

pub open spec fn is_lower_hex_digit(c: char) -> bool {
    ||| '0' <= c <= '9'
    ||| 'a' <= c <= 'f'
}

proof fn lemma_trim_plain(s: Seq<char>)
    requires
        forall|i: int| 0 <= i < s.len() ==> !is_space(#[trigger] s[i]),
    ensures
        trim(s) == s,
{
    if s.len() > 0 {
        assert(!is_space(s[0]));
        assert(!is_space(s.last()));
    }
}

proof fn lemma_strip_none(s: Seq<char>, p: Seq<char>)
    requires
        p.len() == 2,
        p[1] == 'x' || p[1] == 'X',
        forall|i: int| 0 <= i < s.len() ==> is_hex_digit(#[trigger] s[i]),
    ensures
        strip_all(s, p) == s,
{
    if s.len() >= 2 && s.subrange(0, 2) == p {
        assert(s.subrange(0, 2)[1] == s[1]);
        assert(is_hex_digit(s[1]));
    }
}

/// An id made of at most four hexadecimal digits in any case, with or without a
/// `0x` or `0X` prefix, normalizes to its digits in lower case, left-padded with
/// zeros to exactly four characters.
pub proof fn lemma_normalize_short_hex(prefix: Seq<char>, digits: Seq<char>)
    requires
        prefix == seq!['0', 'x'] || prefix == seq!['0', 'X'] || prefix == Seq::<char>::empty(),
        digits.len() <= 4,
        forall|i: int| 0 <= i < digits.len() ==> is_hex_digit(#[trigger] digits[i]),
    ensures
        normalize_id(prefix + digits) == pad_id(lower_ascii(digits)),
        normalize_id(prefix + digits).len() == 4,
        forall|i: int|
            0 <= i < 4 ==> is_lower_hex_digit(#[trigger] normalize_id(prefix + digits)[i]),
{
    let s = prefix + digits;
    assert forall|i: int| 0 <= i < s.len() implies !is_space(#[trigger] s[i]) by {
        if i < prefix.len() {
            assert(s[i] == prefix[i]);
        } else {
            assert(s[i] == digits[i - prefix.len()]);
        }
    }
    lemma_trim_plain(s);
    let px = seq!['0', 'x'];
    let pX = seq!['0', 'X'];
    if prefix == px {
        assert(s.subrange(0, 2) =~= px);
        assert(s.subrange(2, s.len() as int) =~= digits);
        lemma_strip_none(digits, px);
        lemma_strip_none(digits, pX);
    } else if prefix == pX {
        if s.subrange(0, 2) == px {
            assert(s.subrange(0, 2)[1] == s[1]);
        }
        assert(s.subrange(0, 2) =~= pX);
        assert(s.subrange(2, s.len() as int) =~= digits);
        lemma_strip_none(digits, pX);
    } else {
        assert(s =~= digits);
        lemma_strip_none(digits, px);
        lemma_strip_none(digits, pX);
    }
    let low = lower_ascii(digits);
    let r = pad_id(low);
    assert forall|i: int| 0 <= i < 4 implies is_lower_hex_digit(#[trigger] r[i]) by {
        if low.len() < 4 {
            let k = 4 - low.len();
            if i >= k {
                assert(r[i] == low[i - k]);
                assert(is_hex_digit(digits[i - k]));
            }
        } else {
            assert(is_hex_digit(digits[i]));
        }
    }
}

/// An id that is already four lower-case hexadecimal digits normalizes to itself.
pub proof fn lemma_normalize_idempotent(s: Seq<char>)
    requires
        s.len() == 4,
        forall|i: int| 0 <= i < s.len() ==> is_lower_hex_digit(#[trigger] s[i]),
    ensures
        normalize_id(s) == s,
{
    lemma_normalize_short_hex(Seq::<char>::empty(), s);
    assert(Seq::<char>::empty() + s =~= s);
    assert(lower_ascii(s) =~= s);
}

/// An id of more than four hexadecimal digits is not cut: it normalizes to
/// its digits in lower case, of the same length.
pub proof fn lemma_normalize_long_hex(s: Seq<char>)
    requires
        s.len() > 4,
        forall|i: int| 0 <= i < s.len() ==> is_hex_digit(#[trigger] s[i]),
    ensures
        normalize_id(s) == lower_ascii(s),
        normalize_id(s).len() == s.len(),
{
    assert forall|i: int| 0 <= i < s.len() implies !is_space(#[trigger] s[i]) by {
        assert(is_hex_digit(s[i]));
    }
    lemma_trim_plain(s);
    lemma_strip_none(s, seq!['0', 'x']);
    lemma_strip_none(s, seq!['0', 'X']);
}

} // verus!

verus! {

/// Blank lines, comment lines and lines without a two-space separator
/// between id and name leave the parser's state, and with it the registry,
/// as they were; so do lines that are not valid UTF-8.
pub proof fn lemma_skipped_lines(st: ParseState, l: Seq<char>, raw: Seq<u8>)
    requires
        trim(l).len() == 0 || trim(l)[0] == '#' || first_gap(trim(l)) < 0,
    ensures
        line_step(st, l) == st,
        !valid_utf8(raw) ==> raw_line_step(st, raw) == st,
{
}

} // verus!

verus! {

// ---------------------------------------------------------------------------
// Uniqueness of keys
// ---------------------------------------------------------------------------

/// No key occurs twice in `ids`.
pub open spec fn unique_ids(ids: Seq<Seq<char>>) -> bool {
    forall|i: int, j: int| 0 <= i < j < ids.len() ==> ids[i] != ids[j]
}

/// Vendor ids are unique in the registry, device ids within each vendor, and
/// subsystem keys within each device.
pub open spec fn registry_unique(db: Seq<VendorModel>) -> bool {
    &&& unique_ids(vendor_ids(db))
    &&& forall|i: int|
        0 <= i < db.len() ==> #[trigger] device_keys_unique(db[i])
}

pub open spec fn device_keys_unique(v: VendorModel) -> bool {
    &&& unique_ids(device_ids(v.devices))
    &&& forall|j: int|
        0 <= j < v.devices.len() ==> unique_ids(
            subsystem_keys(#[trigger] v.devices[j].subsystems),
        )
}

proof fn lemma_first_exists(ids: Seq<Seq<char>>, k: Seq<char>, j: int)
    requires
        0 <= j < ids.len(),
        ids[j] == k,
    ensures
        0 <= first_index(ids, k) <= j,
    decreases j,
{
    if exists|i: int| 0 <= i < j && ids[i] == k {
        let i = choose|i: int| 0 <= i < j && ids[i] == k;
        lemma_first_exists(ids, k, i);
    } else {
        assert(is_first(ids, k, j));
        lemma_first_unique(ids, k, j);
    }
}

proof fn lemma_unique_push(ids: Seq<Seq<char>>, k: Seq<char>)
    requires
        unique_ids(ids),
        first_index(ids, k) < 0,
    ensures
        unique_ids(ids.push(k)),
{
    assert forall|i: int, j: int| 0 <= i < j < ids.push(k).len() implies ids.push(k)[i]
        != ids.push(k)[j] by {
        if j == ids.len() && ids[i] == k {
            lemma_first_exists(ids, k, i);
        }
    }
}

proof fn lemma_add_vendor_unique(db: Seq<VendorModel>, id: Seq<char>, name: Seq<char>)
    requires
        registry_unique(db),
    ensures
        registry_unique(add_vendor(db, id, name)),
{
    if first_index(vendor_ids(db), id) < 0 {
        let nv = VendorModel { id, name, devices: seq![] };
        let r = db.push(nv);
        assert(vendor_ids(r) =~= vendor_ids(db).push(id));
        lemma_unique_push(vendor_ids(db), id);
        assert(device_ids(nv.devices) =~= seq![]);
        assert forall|i: int| 0 <= i < r.len() implies #[trigger] device_keys_unique(r[i]) by {
            if i < db.len() {
                assert(r[i] == db[i]);
            }
        }
    }
}

proof fn lemma_add_device_unique(
    db: Seq<VendorModel>,
    vid: Seq<char>,
    did: Seq<char>,
    name: Seq<char>,
)
    requires
        registry_unique(db),
    ensures
        registry_unique(add_device(db, vid, did, name)),
{
    let vi = first_index(vendor_ids(db), vid);
    if vi >= 0 {
        assert(is_first(vendor_ids(db), vid, vi));
        let v = db[vi];
        if first_index(device_ids(v.devices), did) < 0 {
            let nd = DeviceModel { id: did, name, subsystems: seq![] };
            let nv = VendorModel { devices: v.devices.push(nd), ..v };
            let r = db.update(vi, nv);
            assert(vendor_ids(r) =~= vendor_ids(db));
            assert(device_keys_unique(v));
            assert(device_ids(nv.devices) =~= device_ids(v.devices).push(did));
            lemma_unique_push(device_ids(v.devices), did);
            assert(subsystem_keys(nd.subsystems) =~= seq![]);
            assert forall|j: int| 0 <= j < nv.devices.len() implies unique_ids(
                subsystem_keys(#[trigger] nv.devices[j].subsystems),
            ) by {
                if j < v.devices.len() {
                    assert(nv.devices[j] == v.devices[j]);
                }
            }
            assert(device_keys_unique(nv));
            assert forall|i: int| 0 <= i < r.len() implies #[trigger] device_keys_unique(r[i]) by {
                if i != vi {
                    assert(r[i] == db[i]);
                }
            }
        }
    }
}

proof fn lemma_set_subsystem_unique(
    db: Seq<VendorModel>,
    vid: Seq<char>,
    did: Seq<char>,
    key: Seq<char>,
    name: Seq<char>,
)
    requires
        registry_unique(db),
    ensures
        registry_unique(set_subsystem(db, vid, did, key, name)),
{
    let vi = first_index(vendor_ids(db), vid);
    if vi >= 0 {
        assert(is_first(vendor_ids(db), vid, vi));
        let v = db[vi];
        let di = first_index(device_ids(v.devices), did);
        if di >= 0 {
            assert(is_first(device_ids(v.devices), did, di));
            assert(device_keys_unique(v));
            let d = v.devices[di];
            let keys = subsystem_keys(d.subsystems);
            assert(unique_ids(keys));
            let si = first_index(keys, key);
            let subs = if si >= 0 {
                d.subsystems.update(si, (key, name))
            } else {
                d.subsystems.push((key, name))
            };
            if si >= 0 {
                assert(is_first(keys, key, si));
                assert(subsystem_keys(subs) =~= keys);
            } else {
                assert(subsystem_keys(subs) =~= keys.push(key));
                lemma_unique_push(keys, key);
            }
            let nd = DeviceModel { subsystems: subs, ..d };
            let nv = VendorModel { devices: v.devices.update(di, nd), ..v };
            let r = db.update(vi, nv);
            assert(vendor_ids(r) =~= vendor_ids(db));
            assert(device_ids(nv.devices) =~= device_ids(v.devices));
            assert forall|j: int| 0 <= j < nv.devices.len() implies unique_ids(
                subsystem_keys(#[trigger] nv.devices[j].subsystems),
            ) by {
                if j != di {
                    assert(nv.devices[j] == v.devices[j]);
                }
            }
            assert(device_keys_unique(nv));
            assert forall|i: int| 0 <= i < r.len() implies #[trigger] device_keys_unique(r[i]) by {
                if i != vi {
                    assert(r[i] == db[i]);
                }
            }
        }
    }
}

proof fn lemma_run_unique(st: ParseState, ls: Seq<Seq<u8>>)
    requires
        registry_unique(st.db),
    ensures
        registry_unique(run_lines(st, ls).db),
    decreases ls.len(),
{
    if ls.len() > 0 {
        let l = ls[0];
        if valid_utf8(l) {
            let c = decode_utf8(l);
            let t = trim(c);
            let g = first_gap(t);
            let raw_id = trim(t.subrange(0, g));
            let id = normalize_id(raw_id);
            let name = trim(t.subrange(g + 2, t.len() as int));
            lemma_add_vendor_unique(st.db, id, name);
            if let Some(v) = st.vendor {
                lemma_add_device_unique(st.db, v, id, name);
                if let Some(d) = st.device {
                    lemma_set_subsystem_unique(st.db, v, d, subsystem_key_of(raw_id), name);
                }
            }
        }
        lemma_run_unique(raw_line_step(st, ls[0]), ls.drop_first());
    }
}

/// Every registry that the parser builds has unique vendor ids, unique device
/// ids within each vendor, and unique subsystem keys within each device.
pub proof fn lemma_parse_keys_unique(b: Seq<u8>)
    ensures
        registry_unique(parse_registry(b)),
{
    assert(vendor_ids(initial_state().db) =~= seq![]);
    lemma_run_unique(initial_state(), split_lines(b));
}

} // verus!
