//! What the mapping files say: which input axis an axis of a device drives,
//! and which keys a button of a device presses.

use vstd::prelude::*;
use std::collections::HashMap;
use crate::device_codes::{gamepad_axis_number, gamepad_button_number, GamepadAxis, GamepadButton};
use crate::text::{
    chars_of, chars_equal, decimal, digit_char, digit_value, is_digit, parse_unsigned, parse_unsigned_spec,
    push_decimal, scan_digits, IntErrorKind,
};

verus! {

broadcast use vstd::std_specs::hash::group_hash_axioms;

/// The input axes that a device axis can drive. `Nothing` leaves an axis
/// unmapped.
#[derive(Clone, Copy, Debug, PartialEq, Eq, Structural)]
pub enum AxisVariations {
    XAxis1,
    XAxis2,
    YAxis1,
    YAxis2,
    ZAxis1,
    ZAxis2,
    LesserAxis1,
    LesserAxis2,
    Nothing,
}

/// The name of an input axis in the mapping files.
pub open spec fn axis_name(v: AxisVariations) -> Seq<char> {
    match v {
        AxisVariations::XAxis1 => "XAxis1"@,
        AxisVariations::XAxis2 => "XAxis2"@,
        AxisVariations::YAxis1 => "YAxis1"@,
        AxisVariations::YAxis2 => "YAxis2"@,
        AxisVariations::ZAxis1 => "ZAxis1"@,
        AxisVariations::ZAxis2 => "ZAxis2"@,
        AxisVariations::LesserAxis1 => "LesserAxis1"@,
        AxisVariations::LesserAxis2 => "LesserAxis2"@,
        AxisVariations::Nothing => "Unmapped"@,
    }
}

/// The input axis that a name in the mapping files stands for.
pub open spec fn axis_from_name(s: Seq<char>) -> Option<AxisVariations> {
    if s == "XAxis1"@ {
        Some(AxisVariations::XAxis1)
    } else if s == "XAxis2"@ {
        Some(AxisVariations::XAxis2)
    } else if s == "YAxis1"@ {
        Some(AxisVariations::YAxis1)
    } else if s == "YAxis2"@ {
        Some(AxisVariations::YAxis2)
    } else if s == "ZAxis1"@ {
        Some(AxisVariations::ZAxis1)
    } else if s == "ZAxis2"@ {
        Some(AxisVariations::ZAxis2)
    } else if s == "LesserAxis1"@ {
        Some(AxisVariations::LesserAxis1)
    } else if s == "LesserAxis2"@ {
        Some(AxisVariations::LesserAxis2)
    } else if s == "Unmapped"@ {
        Some(AxisVariations::Nothing)
    } else {
        None
    }
}

/// The error for a name that no input axis has.
#[derive(Clone, Copy, Debug, PartialEq, Eq, Structural)]
pub struct AxisVariationsFromStrError;

impl AxisVariationsFromStrError {
    /// The message that describes the error.
    pub fn message(&self) -> (m: &'static str)
        ensures
            m@ == "AxisVariationsFromStrError"@,
    {
        "AxisVariationsFromStrError"
    }
}

impl AxisVariations {
    /// The name of the axis, as the mapping files write it.
    pub fn name(&self) -> (n: &'static str)
        ensures
            n@ == axis_name(*self),
    {
        match self {
            AxisVariations::XAxis1 => "XAxis1",
            AxisVariations::XAxis2 => "XAxis2",
            AxisVariations::YAxis1 => "YAxis1",
            AxisVariations::YAxis2 => "YAxis2",
            AxisVariations::ZAxis1 => "ZAxis1",
            AxisVariations::ZAxis2 => "ZAxis2",
            AxisVariations::LesserAxis1 => "LesserAxis1",
            AxisVariations::LesserAxis2 => "LesserAxis2",
            AxisVariations::Nothing => "Unmapped",
        }
    }

    /// The name of the axis as an owned text.
    pub fn to_string(&self) -> (s: String)
        ensures
            s@ == axis_name(*self),
    {
        String::from_str(self.name())
    }

    /// Reads an axis name of the mapping files.
    pub fn from_str(s: &str) -> (r: Result<AxisVariations, AxisVariationsFromStrError>)
        ensures
            match axis_from_name(s@) {
                Some(v) => r == Ok::<AxisVariations, AxisVariationsFromStrError>(v),
                None => r is Err,
            },
    {
        let cs = chars_of(s);
        if chars_equal(&cs, "XAxis1") {
            Ok(AxisVariations::XAxis1)
        } else if chars_equal(&cs, "XAxis2") {
            Ok(AxisVariations::XAxis2)
        } else if chars_equal(&cs, "YAxis1") {
            Ok(AxisVariations::YAxis1)
        } else if chars_equal(&cs, "YAxis2") {
            Ok(AxisVariations::YAxis2)
        } else if chars_equal(&cs, "ZAxis1") {
            Ok(AxisVariations::ZAxis1)
        } else if chars_equal(&cs, "ZAxis2") {
            Ok(AxisVariations::ZAxis2)
        } else if chars_equal(&cs, "LesserAxis1") {
            Ok(AxisVariations::LesserAxis1)
        } else if chars_equal(&cs, "LesserAxis2") {
            Ok(AxisVariations::LesserAxis2)
        } else if chars_equal(&cs, "Unmapped") {
            Ok(AxisVariations::Nothing)
        } else {
            Err(AxisVariationsFromStrError)
        }
    }
}

/// Reading the name of an axis gives the axis back.
pub proof fn lemma_axis_name_round_trip(v: AxisVariations)
    ensures
        axis_from_name(axis_name(v)) == Some(v),
{
    reveal_strlit("XAxis1");
    reveal_strlit("XAxis2");
    reveal_strlit("YAxis1");
    reveal_strlit("YAxis2");
    reveal_strlit("ZAxis1");
    reveal_strlit("ZAxis2");
    reveal_strlit("LesserAxis1");
    reveal_strlit("LesserAxis2");
    reveal_strlit("Unmapped");
    let n = axis_name(v);
    // Names of different lengths differ; names of equal length differ at the
    // first letter or at the digit.
    assert(n.len() != 6 ==> n != "XAxis1"@ && n != "XAxis2"@ && n != "YAxis1"@ && n != "YAxis2"@
        && n != "ZAxis1"@ && n != "ZAxis2"@);
    assert(n.len() != 11 ==> n != "LesserAxis1"@ && n != "LesserAxis2"@);
    assert(n.len() != 8 ==> n != "Unmapped"@);
    match v {
        AxisVariations::XAxis1 => assert(n[5] != "XAxis2"@[5]),
        AxisVariations::XAxis2 => assert(n[5] != "XAxis1"@[5]),
        AxisVariations::YAxis1 => {
            assert(n[0] != "XAxis1"@[0]);
            assert(n[0] != "XAxis2"@[0]);
            assert(n[5] != "YAxis2"@[5]);
        },
        AxisVariations::YAxis2 => {
            assert(n[0] != "XAxis1"@[0]);
            assert(n[0] != "XAxis2"@[0]);
            assert(n[5] != "YAxis1"@[5]);
        },
        AxisVariations::ZAxis1 => {
            assert(n[0] != "XAxis1"@[0]);
            assert(n[0] != "XAxis2"@[0]);
            assert(n[0] != "YAxis1"@[0]);
            assert(n[0] != "YAxis2"@[0]);
            assert(n[5] != "ZAxis2"@[5]);
        },
        AxisVariations::ZAxis2 => {
            assert(n[0] != "XAxis1"@[0]);
            assert(n[0] != "XAxis2"@[0]);
            assert(n[0] != "YAxis1"@[0]);
            assert(n[0] != "YAxis2"@[0]);
            assert(n[5] != "ZAxis1"@[5]);
        },
        AxisVariations::LesserAxis1 => assert(n[10] != "LesserAxis2"@[10]),
        AxisVariations::LesserAxis2 => assert(n[10] != "LesserAxis1"@[10]),
        AxisVariations::Nothing => {},
    }
}


/// The pieces of a text between its commas, as `str::split(',')` yields
/// them: a text without commas is one piece, and every comma starts a new
/// one.
pub open spec fn split_commas(s: Seq<char>) -> Seq<Seq<char>>
    decreases s.len(),
{
    if s.len() == 0 {
        seq![Seq::<char>::empty()]
    } else {
        let prev = split_commas(s.drop_last());
        if s.last() == ',' {
            prev.push(Seq::<char>::empty())
        } else {
            prev.update(prev.len() - 1, prev.last().push(s.last()))
        }
    }
}

/// The keys that a comma separated key list names, if every piece of it is
/// a `u16` in decimal.
pub open spec fn key_list_values(s: Seq<char>) -> Option<Seq<u16>> {
    let pieces = split_commas(s);
    if forall|j: int| 0 <= j < pieces.len() ==> (#[trigger] parse_unsigned_spec(pieces[j], 65535)) is Ok {
        Some(Seq::new(pieces.len(), |j: int| parse_unsigned_spec(pieces[j], 65535)->Ok_0 as u16))
    } else {
        None
    }
}

/// The keys written in decimal, separated by commas.
pub open spec fn key_list_text(keys: Seq<u16>) -> Seq<char>
    decreases keys.len(),
{
    if keys.len() == 0 {
        Seq::<char>::empty()
    } else if keys.len() == 1 {
        decimal(keys[0] as nat)
    } else {
        key_list_text(keys.drop_last()) + seq![','] + decimal(keys.last() as nat)
    }
}

/// The keys that one mapped button presses together, such as `alt+j`.
#[derive(Debug)]
pub struct KeyList {
    pub key_list: Vec<u16>,
}

/// The error for a key list with a piece that is not a key code.
#[derive(Clone, Copy, Debug, PartialEq, Eq, Structural)]
pub struct KeyListFromStrError {}

impl KeyListFromStrError {
    /// The message that describes the error.
    pub fn message(&self) -> (m: &'static str)
        ensures
            m@ == "KeyListFromStrError"@,
    {
        "KeyListFromStrError"
    }
}

/// Splits characters at every comma.
fn split_at_commas(cs: &Vec<char>) -> (pieces: Vec<Vec<char>>)
    ensures
        pieces@.len() == split_commas(cs@).len(),
        forall|j: int| 0 <= j < pieces@.len() ==> #[trigger] pieces@[j]@ == split_commas(cs@)[j],
{
    let mut done: Vec<Vec<char>> = Vec::new();
    let mut cur: Vec<char> = Vec::new();
    let mut i: usize = 0;
    assert(cs@.take(0) =~= Seq::<char>::empty());
    while i < cs.len()
        invariant
            i <= cs@.len(),
            split_commas(cs@.take(i as int)).len() == done@.len() + 1,
            forall|j: int|
                0 <= j < done@.len() ==> #[trigger] done@[j]@ == split_commas(cs@.take(i as int))[j],
            split_commas(cs@.take(i as int)).last() == cur@,
        decreases cs@.len() - i,
    {
        let c = cs[i];
        assert(cs@.take(i + 1).drop_last() =~= cs@.take(i as int));
        assert(cs@.take(i + 1).last() == c);
        if c == ',' {
            done.push(cur);
            cur = Vec::new();
        } else {
            cur.push(c);
        }
        i = i + 1;
    }
    assert(cs@.take(i as int) =~= cs@);
    done.push(cur);
    done
}

impl KeyList {
    /// The keys in decimal, separated by commas, as the mapping files write
    /// them.
    pub fn to_string(&self) -> (s: String)
        ensures
            s@ == key_list_text(self.key_list@),
    {
        let keys = &self.key_list;
        let mut out = String::new();
        let mut i: usize = 0;
        assert(keys@.take(0) =~= Seq::<u16>::empty());
        while i < keys.len()
            invariant
                i <= keys@.len(),
                out@ == key_list_text(keys@.take(i as int)),
            decreases keys@.len() - i,
        {
            if i > 0 {
                out.append(",");
                proof {
                    reveal_strlit(",");
                }
            }
            push_decimal(&mut out, keys[i]);
            assert(keys@.take(i + 1).drop_last() =~= keys@.take(i as int));
            i = i + 1;
        }
        assert(keys@.take(i as int) =~= keys@);
        out
    }

    /// Reads a comma separated list of key codes, such as `220,66`.
    pub fn from_str(s: &str) -> (r: Result<KeyList, KeyListFromStrError>)
        ensures
            match key_list_values(s@) {
                Some(keys) => r is Ok && r->Ok_0.key_list@ == keys,
                None => r is Err,
            },
    {
        let cs = chars_of(s);
        let pieces = split_at_commas(&cs);
        let ghost split = split_commas(s@);
        let mut keys: Vec<u16> = Vec::new();
        let mut j: usize = 0;
        while j < pieces.len()
            invariant
                j <= pieces@.len(),
                cs@ == s@,
                split == split_commas(s@),
                pieces@.len() == split.len(),
                forall|k: int| 0 <= k < pieces@.len() ==> #[trigger] pieces@[k]@ == split[k],
                keys@.len() == j,
                forall|k: int|
                    0 <= k < j ==> (#[trigger] parse_unsigned_spec(split[k], 65535)) is Ok
                        && keys@[k] == parse_unsigned_spec(split[k], 65535)->Ok_0 as u16,
            decreases pieces@.len() - j,
        {
            match parse_unsigned(&pieces[j], 65535) {
                Ok(v) => {
                    keys.push(v as u16);
                },
                Err(_) => {
                    assert(pieces@[j as int]@ == split[j as int]);
                    return Err(KeyListFromStrError {});
                },
            }
            j = j + 1;
        }
        let ghost values = Seq::new(split.len(), |k: int| parse_unsigned_spec(split[k], 65535)->Ok_0 as u16);
        assert(keys@ =~= values);
        Ok(KeyList { key_list: keys })
    }
}


/// The decimal form of a number is a non-empty run of digits that reads back
/// as the number.
proof fn lemma_decimal_reads_back(n: nat, max: int)
    requires
        n <= max,
    ensures
        decimal(n).len() >= 1,
        forall|k: int| 0 <= k < decimal(n).len() ==> is_digit(#[trigger] decimal(n)[k]),
        scan_digits(decimal(n), max) == Ok::<int, IntErrorKind>(n as int),
    decreases n,
{
    let d = decimal(n);
    if n < 10 {
        assert(d.drop_last() =~= Seq::<char>::empty());
        assert(scan_digits(d.drop_last(), max) == Ok::<int, IntErrorKind>(0));
        assert(digit_char(n as int) as int == '0' as int + n);
        assert(digit_value(d.last()) == n);
    } else {
        lemma_decimal_reads_back(n / 10, max);
        assert(d.drop_last() =~= decimal(n / 10));
        assert(digit_char(n as int % 10) as int == '0' as int + n % 10);
        assert(digit_value(d.last()) == n % 10);
        assert((n / 10) * 10 + n % 10 == n);
        assert(forall|k: int| 0 <= k < decimal(n / 10).len() ==> d[k] == decimal(n / 10)[k]);
    }
}

/// A text without commas is a single piece.
proof fn lemma_split_without_commas(y: Seq<char>)
    requires
        forall|k: int| 0 <= k < y.len() ==> y[k] != ',',
    ensures
        split_commas(y) == seq![y],
    decreases y.len(),
{
    if y.len() == 0 {
        assert(y =~= Seq::<char>::empty());
    } else {
        assert(forall|k: int| 0 <= k < y.len() - 1 ==> y.drop_last()[k] == y[k]);
        lemma_split_without_commas(y.drop_last());
        assert(y[y.len() - 1] != ',');
        assert(y.drop_last().push(y.last()) =~= y);
        assert(seq![y.drop_last()].update(0, y) =~= seq![y]);
    }
}

/// A comma followed by a text without commas adds that text as a last piece.
proof fn lemma_split_after_comma(x: Seq<char>, y: Seq<char>)
    requires
        forall|k: int| 0 <= k < y.len() ==> y[k] != ',',
    ensures
        split_commas(x + seq![','] + y) == split_commas(x).push(y),
    decreases y.len(),
{
    let s = x + seq![','] + y;
    if y.len() == 0 {
        assert(s.drop_last() =~= x);
        assert(s.last() == ',');
        assert(y =~= Seq::<char>::empty());
    } else {
        assert(forall|k: int| 0 <= k < y.len() - 1 ==> y.drop_last()[k] == y[k]);
        lemma_split_after_comma(x, y.drop_last());
        assert(s.drop_last() =~= x + seq![','] + y.drop_last());
        assert(y[y.len() - 1] != ',');
        assert(s.last() == y.last());
        assert(y.drop_last().push(y.last()) =~= y);
        let prev = split_commas(s.drop_last());
        assert(prev == split_commas(x).push(y.drop_last()));
        assert(split_commas(s) == prev.update(prev.len() - 1, prev.last().push(s.last())));
        assert(split_commas(x).push(y.drop_last()).update(split_commas(x).len() as int, y)
            =~= split_commas(x).push(y));
    }
}

/// The pieces of a written key list are the decimal forms of its keys.
proof fn lemma_split_key_list_text(keys: Seq<u16>)
    requires
        keys.len() >= 1,
    ensures
        split_commas(key_list_text(keys)) == Seq::new(keys.len(), |j: int| decimal(keys[j] as nat)),
    decreases keys.len(),
{
    lemma_decimal_reads_back(keys.last() as nat, 65535);
    if keys.len() == 1 {
        lemma_split_without_commas(decimal(keys[0] as nat));
        assert(seq![decimal(keys[0] as nat)] =~= Seq::new(keys.len(), |j: int| decimal(keys[j] as nat)));
    } else {
        lemma_split_key_list_text(keys.drop_last());
        lemma_split_after_comma(key_list_text(keys.drop_last()), decimal(keys.last() as nat));
        assert(Seq::new(keys.drop_last().len(), |j: int| decimal(keys.drop_last()[j] as nat)).push(
            decimal(keys.last() as nat)) =~= Seq::new(keys.len(), |j: int| decimal(keys[j] as nat)));
    }
}

/// Reading a written key list gives the same keys back, for every key list
/// with at least one key. (An empty key list is written as an empty text,
/// which is no key list.)
pub proof fn lemma_key_list_round_trip(keys: Seq<u16>)
    requires
        keys.len() >= 1,
    ensures
        key_list_values(key_list_text(keys)) == Some(keys),
{
    lemma_split_key_list_text(keys);
    let pieces = split_commas(key_list_text(keys));
    assert forall|j: int| 0 <= j < pieces.len() implies
        (#[trigger] parse_unsigned_spec(pieces[j], 65535)) == Ok::<int, IntErrorKind>(keys[j] as int) by {
        lemma_decimal_reads_back(keys[j] as nat, 65535);
        assert(pieces[j] == decimal(keys[j] as nat));
    }
    assert(Seq::new(pieces.len(), |j: int| parse_unsigned_spec(pieces[j], 65535)->Ok_0 as u16) =~= keys);
}

/// The empty key list is written as a text that does not read back.
pub proof fn lemma_empty_key_list_does_not_read_back()
    ensures
        key_list_values(key_list_text(Seq::<u16>::empty())) is None,
{
    assert(split_commas(Seq::<char>::empty())[0] == Seq::<char>::empty());
    assert(parse_unsigned_spec(split_commas(Seq::<char>::empty())[0], 65535) is Err);
}


/// The GUID of the Xbox gamepad that the default mappings are made for.
pub const XBOX_GAMEPAD_GUID: &'static str = "030000005e040000ff02000000007200";

/// The per-device map of the first entry for `guid`, if any.
pub open spec fn device_lookup<V>(entries: Seq<(String, HashMap<u8, V>)>, guid: Seq<char>) -> Option<
    Map<u8, V>,
>
    decreases entries.len(),
{
    if entries.len() == 0 {
        None
    } else if entries[0].0@ == guid {
        Some(entries[0].1@)
    } else {
        device_lookup(entries.drop_first(), guid)
    }
}

/// Each device GUID has at most one entry, as in a map keyed by GUID.
pub open spec fn guids_unique<V>(entries: Seq<(String, HashMap<u8, V>)>) -> bool {
    forall|i: int, j: int| 0 <= i < j < entries.len() ==> entries[i].0@ != entries[j].0@
}

/// Whether each device GUID has at most one entry.
fn guids_are_unique<V>(entries: &Vec<(String, HashMap<u8, V>)>) -> (r: bool)
    ensures
        r == guids_unique(entries@),
{
    let n = entries.len();
    let mut i: usize = 0;
    while i < n
        invariant
            n == entries@.len(),
            i <= n,
            forall|a: int, b: int| 0 <= a < b < n && a < i ==> entries@[a].0@ != entries@[b].0@,
        decreases n - i,
    {
        let mut j: usize = i + 1;
        while j < n
            invariant
                n == entries@.len(),
                i < n,
                i + 1 <= j <= n,
                forall|a: int, b: int| 0 <= a < b < n && a < i ==> entries@[a].0@ != entries@[b].0@,
                forall|b: int| i < b < j ==> entries@[i as int].0@ != entries@[b].0@,
            decreases n - j,
        {
            if entries[i].0 == entries[j].0 {
                return false;
            }
            j = j + 1;
        }
        i = i + 1;
    }
    true
}

/// With each GUID at most once, looking up a device finds its entry, and
/// finds nothing for a GUID without one: the entries act as a map keyed by
/// GUID.
pub proof fn lemma_unique_lookup<V>(entries: Seq<(String, HashMap<u8, V>)>, guid: Seq<char>, i: int)
    requires
        guids_unique(entries),
    ensures
        0 <= i < entries.len() && entries[i].0@ == guid ==> device_lookup(entries, guid) == Some(
            entries[i].1@,
        ),
        (forall|j: int| 0 <= j < entries.len() ==> entries[j].0@ != guid) ==> device_lookup(
            entries,
            guid,
        ) is None,
    decreases entries.len(),
{
    if entries.len() > 0 {
        let rest = entries.drop_first();
        assert(guids_unique(rest)) by {
            assert forall|a: int, b: int| 0 <= a < b < rest.len() implies rest[a].0@ != rest[b].0@ by {
                assert(rest[a] == entries[a + 1]);
                assert(rest[b] == entries[b + 1]);
            }
        }
        lemma_unique_lookup(rest, guid, i - 1);
        if 0 < i < entries.len() && entries[i].0@ == guid {
            assert(entries[0].0@ != entries[i].0@);
            assert(rest[i - 1] == entries[i]);
        }
        if forall|j: int| 0 <= j < entries.len() ==> entries[j].0@ != guid {
            assert(entries[0].0@ != guid);
            assert forall|j: int| 0 <= j < rest.len() implies rest[j].0@ != guid by {
                assert(rest[j] == entries[j + 1]);
            }
        }
    }
}

/// The entry of a code in the per-device map of `guid`, if both exist.
pub open spec fn code_lookup<V>(entries: Seq<(String, HashMap<u8, V>)>, guid: Seq<char>, code: u8) -> Option<V> {
    match device_lookup(entries, guid) {
        Some(m) => if m.contains_key(code) {
            Some(m[code])
        } else {
            None
        },
        None => None,
    }
}

/// Finds the per-device map of `guid`.
fn find_device<'a, V>(entries: &'a Vec<(String, HashMap<u8, V>)>, guid: &String) -> (r: Option<&'a HashMap<u8, V>>)
    ensures
        match r {
            Some(h) => device_lookup(entries@, guid@) == Some(h@),
            None => device_lookup(entries@, guid@) is None,
        },
{
    let mut i: usize = 0;
    assert(entries@.skip(0) =~= entries@);
    while i < entries.len()
        invariant
            i <= entries@.len(),
            device_lookup(entries@, guid@) == device_lookup(entries@.skip(i as int), guid@),
        decreases entries@.len() - i,
    {
        assert(entries@.skip(i as int)[0] == entries@[i as int]);
        if entries[i].0 == *guid {
            return Some(&entries[i].1);
        }
        assert(entries@.skip(i as int).drop_first() =~= entries@.skip(i + 1));
        i = i + 1;
    }
    assert(entries@.skip(i as int) =~= Seq::<(String, HashMap<u8, V>)>::empty());
    None
}

/// Looks up the entry of a code in the per-device map of `guid`.
fn find_code<'a, V>(entries: &'a Vec<(String, HashMap<u8, V>)>, guid: &String, code: u8) -> (r: Option<&'a V>)
    ensures
        match r {
            Some(v) => code_lookup(entries@, guid@, code) == Some(*v),
            None => code_lookup(entries@, guid@, code) is None,
        },
{
    match find_device(entries, guid) {
        Some(h) => h.get(&code),
        None => None,
    }
}

/// What a mapping file that was read gives.
#[derive(Debug)]
pub enum MappingLoad<M> {
    /// The file holds mappings: use them.
    Use(M),
    /// The file holds no mapping: write the default mappings and read again.
    ResetEmpty,
    /// The file is no mapping file: report it, write the default mappings and
    /// read again.
    ResetInvalid,
}

/// Which input axis each axis of each device drives, by device GUID.
#[derive(Debug)]
pub struct AxisMap {
    pub mapping: Vec<(String, HashMap<u8, AxisVariations>)>,
}

impl AxisMap {
    /// The input axis that axis `axis_idx` of device `guid` drives, if mapped.
    pub fn get(&self, guid: &String, axis_idx: u8) -> (r: Option<AxisVariations>)
        ensures
            r == code_lookup(self.mapping@, guid@, axis_idx),
    {
        match find_code(&self.mapping, guid, axis_idx) {
            Some(v) => Some(*v),
            None => None,
        }
    }

    /// Whether no device is mapped.
    pub fn is_empty(&self) -> (r: bool)
        ensures
            r == (self.mapping@.len() == 0),
    {
        self.mapping.len() == 0
    }

    /// The default mappings: the sticks and triggers of the Xbox gamepad.
    pub fn xbox_default() -> (m: AxisMap)
        ensures
            m.mapping@.len() == 1,
            guids_unique(m.mapping@),
            m.mapping@[0].0@ == XBOX_GAMEPAD_GUID@,
            m.mapping@[0].1@ == map![
                0u8 => AxisVariations::XAxis1,
                1u8 => AxisVariations::YAxis1,
                2u8 => AxisVariations::XAxis2,
                3u8 => AxisVariations::YAxis2,
                4u8 => AxisVariations::ZAxis2,
                5u8 => AxisVariations::ZAxis1
            ],
    {
        let mut device_map: HashMap<u8, AxisVariations> = HashMap::new();
        device_map.insert(gamepad_axis_number(GamepadAxis::LeftX), AxisVariations::XAxis1);
        device_map.insert(gamepad_axis_number(GamepadAxis::LeftY), AxisVariations::YAxis1);
        device_map.insert(gamepad_axis_number(GamepadAxis::RightX), AxisVariations::XAxis2);
        device_map.insert(gamepad_axis_number(GamepadAxis::RightY), AxisVariations::YAxis2);
        device_map.insert(gamepad_axis_number(GamepadAxis::TriggerLeft), AxisVariations::ZAxis2);
        device_map.insert(gamepad_axis_number(GamepadAxis::TriggerRight), AxisVariations::ZAxis1);
        let mut mapping: Vec<(String, HashMap<u8, AxisVariations>)> = Vec::new();
        mapping.push((String::from_str(XBOX_GAMEPAD_GUID), device_map));
        let m = AxisMap { mapping };
        assert(m.mapping@[0].1@ =~= map![
            0u8 => AxisVariations::XAxis1,
            1u8 => AxisVariations::YAxis1,
            2u8 => AxisVariations::XAxis2,
            3u8 => AxisVariations::YAxis2,
            4u8 => AxisVariations::ZAxis2,
            5u8 => AxisVariations::ZAxis1
        ]);
        m
    }

    /// Decides what a read axis mapping file gives: `None` when it could not
    /// be read as mappings. A device GUID may have one block only: mappings
    /// with a GUID twice are no mapping file. Mappings in use have each GUID
    /// once.
    pub fn loaded(parsed: Option<AxisMap>) -> (r: MappingLoad<AxisMap>)
        ensures
            match parsed {
                Some(m) => if !guids_unique(m.mapping@) {
                    r is ResetInvalid
                } else if m.mapping@.len() == 0 {
                    r is ResetEmpty
                } else {
                    r matches MappingLoad::Use(u) && u == m
                },
                None => r is ResetInvalid,
            },
            r matches MappingLoad::Use(u) ==> guids_unique(u.mapping@),
    {
        match parsed {
            Some(m) => if !guids_are_unique(&m.mapping) {
                MappingLoad::ResetInvalid
            } else if m.is_empty() {
                MappingLoad::ResetEmpty
            } else {
                MappingLoad::Use(m)
            },
            None => MappingLoad::ResetInvalid,
        }
    }
}

/// Which keys each button of each device presses, by device GUID.
#[derive(Debug)]
pub struct KeyMap {
    pub mapping: Vec<(String, HashMap<u8, KeyList>)>,
}

impl KeyMap {
    /// The keys that button `code` of device `guid` presses, if mapped.
    pub fn get(&self, guid: &String, code: u8) -> (r: Option<&KeyList>)
        ensures
            match r {
                Some(k) => code_lookup(self.mapping@, guid@, code) == Some(*k),
                None => code_lookup(self.mapping@, guid@, code) is None,
            },
    {
        find_code(&self.mapping, guid, code)
    }

    /// Whether no device is mapped.
    pub fn is_empty(&self) -> (r: bool)
        ensures
            r == (self.mapping@.len() == 0),
    {
        self.mapping.len() == 0
    }

    /// Whether device `guid` has key mappings.
    pub fn get_device_exists(&self, guid: &String) -> (r: bool)
        ensures
            r == device_lookup(self.mapping@, guid@) is Some,
    {
        find_device(&self.mapping, guid).is_some()
    }

    /// The default mappings for the Xbox gamepad: shoulders, D-pad up and
    /// down, Start, Back and X.
    pub fn xbox_default() -> (m: KeyMap)
        ensures
            m.mapping@.len() == 1,
            guids_unique(m.mapping@),
            m.mapping@[0].0@ == XBOX_GAMEPAD_GUID@,
            m.mapping@[0].1@.dom() == set![5u8, 4u8, 10u8, 11u8, 7u8, 6u8, 2u8],
            m.mapping@[0].1@[5u8].key_list@ == seq![18u16],
            m.mapping@[0].1@[4u8].key_list@ == seq![17u16],
            m.mapping@[0].1@[10u8].key_list@ == seq![82u16],
            m.mapping@[0].1@[11u8].key_list@ == seq![84u16],
            m.mapping@[0].1@[7u8].key_list@ == seq![220u16, 66u16],
            m.mapping@[0].1@[6u8].key_list@ == seq![220u16, 9u16],
            m.mapping@[0].1@[2u8].key_list@ == seq![88u16],
    {
        let mut device_map: HashMap<u8, KeyList> = HashMap::new();
        device_map.insert(gamepad_button_number(GamepadButton::RightShoulder), KeyList { key_list: vec![18] });
        device_map.insert(gamepad_button_number(GamepadButton::LeftShoulder), KeyList { key_list: vec![17] });
        device_map.insert(gamepad_button_number(GamepadButton::DPadUp), KeyList { key_list: vec![82] });
        device_map.insert(gamepad_button_number(GamepadButton::DPadDown), KeyList { key_list: vec![84] });
        device_map.insert(gamepad_button_number(GamepadButton::Start), KeyList { key_list: vec![220, 66] });
        device_map.insert(gamepad_button_number(GamepadButton::Back), KeyList { key_list: vec![220, 9] });
        device_map.insert(gamepad_button_number(GamepadButton::X), KeyList { key_list: vec![88] });
        let mut mapping: Vec<(String, HashMap<u8, KeyList>)> = Vec::new();
        mapping.push((String::from_str(XBOX_GAMEPAD_GUID), device_map));
        let m = KeyMap { mapping };
        assert(m.mapping@[0].1@.dom() =~= set![5u8, 4u8, 10u8, 11u8, 7u8, 6u8, 2u8]);
        m
    }

    /// Decides what a read key mapping file gives: `None` when it could not
    /// be read as mappings. A device GUID may have one block only: mappings
    /// with a GUID twice are no mapping file. Mappings in use have each GUID
    /// once.
    pub fn loaded(parsed: Option<KeyMap>) -> (r: MappingLoad<KeyMap>)
        ensures
            match parsed {
                Some(m) => if !guids_unique(m.mapping@) {
                    r is ResetInvalid
                } else if m.mapping@.len() == 0 {
                    r is ResetEmpty
                } else {
                    r matches MappingLoad::Use(u) && u == m
                },
                None => r is ResetInvalid,
            },
            r matches MappingLoad::Use(u) ==> guids_unique(u.mapping@),
    {
        match parsed {
            Some(m) => if !guids_are_unique(&m.mapping) {
                MappingLoad::ResetInvalid
            } else if m.is_empty() {
                MappingLoad::ResetEmpty
            } else {
                MappingLoad::Use(m)
            },
            None => MappingLoad::ResetInvalid,
        }
    }
}

/// The report for a mapping file that was reset: `Invalid Mapping. <file>
/// has been reset.`
pub fn invalid_mapping_message(file_name: &str) -> (m: String)
    ensures
        m@ == "Invalid Mapping. "@ + file_name@ + " has been reset."@,
{
    let mut m = String::from_str("Invalid Mapping. ");
    m.append(file_name);
    m.append(" has been reset.");
    m
}

} // verus!
