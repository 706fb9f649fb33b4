use vstd::prelude::*;

use crate::text::{trim, trim_bounds};

verus! {

/// Position `i` of the realtime observation list: what the gateway streams
/// by default.
pub open spec fn realtime_observation_param(i: int) -> u16 {
    if i == 0 { 0x7005 }
    else if i == 1 { 0x7019 }
    else if i == 2 { 0x701A }
    else if i == 3 { 0x701B }
    else if i == 4 { 0x701C }
    else if i == 5 { 0x3025 }
    else if i == 6 { 0x302B }
    else { 0x302C }
}

/// Position `i` of the full observation list.
pub open spec fn full_observation_param(i: int) -> u16 {
    if i == 0 { 0x300C }
    else if i == 1 { 0x300D }
    else if i == 2 { 0x300E }
    else if i == 3 { 0x300F }
    else if i == 4 { 0x3010 }
    else if i == 5 { 0x3011 }
    else if i == 6 { 0x3012 }
    else if i == 7 { 0x3013 }
    else if i == 8 { 0x3015 }
    else if i == 9 { 0x3016 }
    else if i == 10 { 0x3017 }
    else if i == 11 { 0x3018 }
    else if i == 12 { 0x3019 }
    else if i == 13 { 0x301A }
    else if i == 14 { 0x301B }
    else if i == 15 { 0x301D }
    else if i == 16 { 0x301E }
    else if i == 17 { 0x3020 }
    else if i == 18 { 0x3021 }
    else if i == 19 { 0x3022 }
    else if i == 20 { 0x3023 }
    else if i == 21 { 0x3024 }
    else if i == 22 { 0x3025 }
    else if i == 23 { 0x3026 }
    else if i == 24 { 0x3027 }
    else if i == 25 { 0x3028 }
    else if i == 26 { 0x3029 }
    else if i == 27 { 0x302A }
    else if i == 28 { 0x302B }
    else if i == 29 { 0x302C }
    else if i == 30 { 0x302D }
    else if i == 31 { 0x302E }
    else if i == 32 { 0x302F }
    else if i == 33 { 0x3030 }
    else if i == 34 { 0x3031 }
    else if i == 35 { 0x3033 }
    else if i == 36 { 0x3034 }
    else if i == 37 { 0x3035 }
    else if i == 38 { 0x3036 }
    else if i == 39 { 0x3037 }
    else if i == 40 { 0x3038 }
    else if i == 41 { 0x3039 }
    else if i == 42 { 0x303A }
    else if i == 43 { 0x303B }
    else if i == 44 { 0x303C }
    else if i == 45 { 0x303D }
    else if i == 46 { 0x303E }
    else if i == 47 { 0x303F }
    else if i == 48 { 0x3041 }
    else if i == 49 { 0x3042 }
    else if i == 50 { 0x3043 }
    else if i == 51 { 0x3044 }
    else if i == 52 { 0x7005 }
    else if i == 53 { 0x7019 }
    else if i == 54 { 0x701A }
    else if i == 55 { 0x701B }
    else { 0x701C }
}

/// The realtime observation list.
pub open spec fn realtime_observation_list() -> Seq<u16> {
    Seq::new(8, |i: int| realtime_observation_param(i))
}

/// The full observation list.
pub open spec fn full_observation_list() -> Seq<u16> {
    Seq::new(57, |i: int| full_observation_param(i))
}

/// Whether no id occurs twice in `ids`.
pub open spec fn no_duplicates(ids: Seq<u16>) -> bool {
    forall|i: int, j: int| 0 <= i < j < ids.len() ==> ids[i] != ids[j]
}

/// The ids of the realtime observation list, in order.
pub fn realtime_observation_params() -> (ids: Vec<u16>)
    ensures
        ids@ == realtime_observation_list(),
{
    let mut ids: Vec<u16> = Vec::new();
    let mut i: usize = 0;
    while i < 8
        invariant
            i <= 8,
            ids@ == realtime_observation_list().take(i as int),
        decreases 8 - i,
    {
        let id: u16 = match i {
        0 => 0x7005,
        1 => 0x7019,
        2 => 0x701A,
        3 => 0x701B,
        4 => 0x701C,
        5 => 0x3025,
        6 => 0x302B,
        _ => 0x302C,
        };
        ids.push(id);
        i = i + 1;
        assert(ids@ =~= realtime_observation_list().take(i as int));
    }
    assert(realtime_observation_list().take(8) =~= realtime_observation_list());
    ids
}

/// The ids of the full observation list, in order.
pub fn full_observation_params() -> (ids: Vec<u16>)
    ensures
        ids@ == full_observation_list(),
{
    let mut ids: Vec<u16> = Vec::new();
    let mut i: usize = 0;
    while i < 57
        invariant
            i <= 57,
            ids@ == full_observation_list().take(i as int),
        decreases 57 - i,
    {
        let id: u16 = match i {
        0 => 0x300C,
        1 => 0x300D,
        2 => 0x300E,
        3 => 0x300F,
        4 => 0x3010,
        5 => 0x3011,
        6 => 0x3012,
        7 => 0x3013,
        8 => 0x3015,
        9 => 0x3016,
        10 => 0x3017,
        11 => 0x3018,
        12 => 0x3019,
        13 => 0x301A,
        14 => 0x301B,
        15 => 0x301D,
        16 => 0x301E,
        17 => 0x3020,
        18 => 0x3021,
        19 => 0x3022,
        20 => 0x3023,
        21 => 0x3024,
        22 => 0x3025,
        23 => 0x3026,
        24 => 0x3027,
        25 => 0x3028,
        26 => 0x3029,
        27 => 0x302A,
        28 => 0x302B,
        29 => 0x302C,
        30 => 0x302D,
        31 => 0x302E,
        32 => 0x302F,
        33 => 0x3030,
        34 => 0x3031,
        35 => 0x3033,
        36 => 0x3034,
        37 => 0x3035,
        38 => 0x3036,
        39 => 0x3037,
        40 => 0x3038,
        41 => 0x3039,
        42 => 0x303A,
        43 => 0x303B,
        44 => 0x303C,
        45 => 0x303D,
        46 => 0x303E,
        47 => 0x303F,
        48 => 0x3041,
        49 => 0x3042,
        50 => 0x3043,
        51 => 0x3044,
        52 => 0x7005,
        53 => 0x7019,
        54 => 0x701A,
        55 => 0x701B,
        _ => 0x701C,
        };
        ids.push(id);
        i = i + 1;
        assert(ids@ =~= full_observation_list().take(i as int));
    }
    assert(full_observation_list().take(57) =~= full_observation_list());
    ids
}

proof fn lemma_full_list_increases(i: int, j: int)
    requires
        0 <= i < j < 57,
    ensures
        full_observation_param(i) < full_observation_param(j),
    decreases j - i,
{
    if j - i > 1 {
        lemma_full_list_increases(i, j - 1);
    }
}

/// Neither observation list names an id twice, and neither is empty.
pub proof fn lemma_observation_lists_distinct()
    ensures
        no_duplicates(realtime_observation_list()),
        no_duplicates(full_observation_list()),
        realtime_observation_list().len() > 0,
        full_observation_list().len() > 0,
{
    assert forall|i: int, j: int| 0 <= i < j < 57 implies full_observation_list()[i] != full_observation_list()[j] by {
        lemma_full_list_increases(i, j);
    }
}

/// The value of `c` as a digit, in base 16 where `hex` holds and in base 10
/// otherwise.
pub open spec fn digit_value(c: char, hex: bool) -> Option<nat> {
    if '0' <= c && c <= '9' {
        Some((c as nat - '0' as nat) as nat)
    } else if hex && 'a' <= c && c <= 'f' {
        Some((c as nat - 'a' as nat + 10) as nat)
    } else if hex && 'A' <= c && c <= 'F' {
        Some((c as nat - 'A' as nat + 10) as nat)
    } else {
        None
    }
}

/// The number that the digits `s` write, most significant first.
pub open spec fn digits_value(s: Seq<char>, hex: bool) -> Option<nat>
    decreases s.len(),
{
    if s.len() == 0 {
        Some(0)
    } else {
        match (digits_value(s.drop_last(), hex), digit_value(s.last(), hex)) {
            (Some(v), Some(d)) => Some(if hex { v * 16 + d } else { v * 10 + d }),
            _ => None,
        }
    }
}

/// Whether `s` starts with the hexadecimal prefix `0x` or `0X`.
pub open spec fn has_hex_prefix(s: Seq<char>) -> bool {
    s.len() >= 2 && s[0] == '0' && (s[1] == 'x' || s[1] == 'X')
}

/// The parameter id that `s` writes: hexadecimal digits after `0x` or
/// `0X`, else decimal digits; at least one digit, and at most `0xFFFF`.
pub open spec fn hex_or_dec_value(s: Seq<char>) -> Option<u16> {
    let hex = has_hex_prefix(s);
    let digits = if hex { s.skip(2) } else { s };
    if digits.len() == 0 {
        None
    } else {
        match digits_value(digits, hex) {
            Some(v) => if v <= 0xFFFF { Some(v as u16) } else { None },
            None => None,
        }
    }
}

/// A longer run of digits never writes a smaller number than its prefix.
proof fn lemma_digits_value_grows(s: Seq<char>, hex: bool, k: int)
    requires
        0 <= k <= s.len(),
        digits_value(s, hex) is Some,
    ensures
        digits_value(s.take(k), hex) is Some,
        digits_value(s.take(k), hex)->0 <= digits_value(s, hex)->0,
    decreases s.len(),
{
    if k < s.len() {
        assert(s.drop_last().take(k) =~= s.take(k));
        lemma_digits_value_grows(s.drop_last(), hex, k);
    } else {
        assert(s.take(k) =~= s);
    }
}

/// The digit `c` as a number, where it is one.
fn digit(c: char, hex: bool) -> (d: Option<u32>)
    ensures
        d matches Some(v) ==> digit_value(c, hex) == Some(v as nat),
        d is None ==> digit_value(c, hex) is None,
{
    if '0' <= c && c <= '9' {
        Some((c as u32) - ('0' as u32))
    } else if hex && 'a' <= c && c <= 'f' {
        Some((c as u32) - ('a' as u32) + 10)
    } else if hex && 'A' <= c && c <= 'F' {
        Some((c as u32) - ('A' as u32) + 10)
    } else {
        None
    }
}

/// The parameter id that `s` writes in hexadecimal (after `0x` or `0X`) or
/// in decimal, if it writes one that fits in 16 bits.
pub fn parse_hex_or_dec(s: &str) -> (id: Option<u16>)
    ensures
        id == hex_or_dec_value(s@),
{
    let n = s.unicode_len();
    let hex = n >= 2 && s.get_char(0) == '0' && (s.get_char(1) == 'x' || s.get_char(1) == 'X');
    let start: usize = if hex { 2 } else { 0 };
    let ghost digits = if hex { s@.skip(2) } else { s@ };
    assert(hex == has_hex_prefix(s@));
    assert(s@.skip(0) =~= s@);
    if n == start {
        return None;
    }
    let mut acc: u32 = 0;
    let mut k = start;
    assert(digits.take(0) =~= Seq::<char>::empty());
    while k < n
        invariant
            start <= k <= n,
            n == s@.len(),
            hex == has_hex_prefix(s@),
            start == (if hex { 2int } else { 0int }),
            digits == s@.skip(start as int),
            digits == (if hex { s@.skip(2) } else { s@ }),
            acc <= 0xFFFF,
            digits_value(digits.take(k - start), hex) == Some(acc as nat),
        decreases n - k,
    {
        let c = s.get_char(k);
        assert(digits[k - start] == c);
        assert(digits.take(k - start + 1).drop_last() =~= digits.take(k - start));
        assert(digits.take(k - start + 1).last() == c);
        match digit(c, hex) {
            None => {
                proof {
                    assert(digits_value(digits.take(k - start + 1), hex) is None);
                    if digits_value(digits, hex) is Some {
                        lemma_digits_value_grows(digits, hex, k - start + 1);
                    }
                }
                return None;
            },
            Some(d) => {
                let next: u32 = if hex { acc * 16 + d } else { acc * 10 + d };
                assert(digits_value(digits.take(k - start + 1), hex) == Some(next as nat));
                if next > 0xFFFF {
                    proof {
                        if digits_value(digits, hex) is Some {
                            lemma_digits_value_grows(digits, hex, k - start + 1);
                        }
                    }
                    return None;
                }
                acc = next;
            },
        }
        k = k + 1;
    }
    assert(digits.take(n - start) =~= digits);
    Some(acc as u16)
}

/// An entry of a list of parameter ids as a message carries it: a number
/// (with its value where it is an unsigned integer that fits in 64 bits),
/// a text, or anything else.
#[derive(Debug)]
pub enum ParamIdItem {
    Number { unsigned: Option<u64> },
    Text(String),
    Other,
}

/// The parameter ids of a message: a list of entries, one text of ids
/// separated by commas, or anything else.
#[derive(Debug)]
pub enum ParamList {
    Items(Vec<ParamIdItem>),
    Text(String),
    Other,
}

/// Why a list of parameter ids is refused.
#[derive(Debug)]
pub enum ParamListError {
    /// The entry at `index` is neither an unsigned integer nor a text.
    InvalidId { index: usize },
    /// `text` writes no id in hexadecimal or decimal that fits in 16 bits.
    InvalidText { text: String },
    /// The ids are neither a list nor a text.
    NotListOrText,
    /// The list names no id.
    Empty,
}

/// The value of a `ParamListError`.
pub enum ParamListErrorView {
    InvalidId(usize),
    InvalidText(Seq<char>),
    NotListOrText,
    Empty,
}

impl View for ParamListError {
    type V = ParamListErrorView;

    open spec fn view(&self) -> ParamListErrorView {
        match self {
            ParamListError::InvalidId { index } => ParamListErrorView::InvalidId(*index),
            ParamListError::InvalidText { text } => ParamListErrorView::InvalidText(text@),
            ParamListError::NotListOrText => ParamListErrorView::NotListOrText,
            ParamListError::Empty => ParamListErrorView::Empty,
        }
    }
}

/// `ids` with `id` appended, unless `ids` already holds it.
pub open spec fn push_unique(ids: Seq<u16>, id: u16) -> Seq<u16> {
    if ids.contains(id) {
        ids
    } else {
        ids.push(id)
    }
}

/// The id that the entry at `index` names. A number is taken modulo 2^16.
pub open spec fn item_id(item: ParamIdItem, index: int) -> Result<u16, ParamListErrorView> {
    match item {
        ParamIdItem::Number { unsigned: Some(x) } => Ok((x % 0x10000) as u16),
        ParamIdItem::Text(t) => match hex_or_dec_value(t@) {
            Some(id) => Ok(id),
            None => Err(ParamListErrorView::InvalidText(t@)),
        },
        _ => Err(ParamListErrorView::InvalidId(index as usize)),
    }
}

/// The ids that a list of entries names, each once, in the order of first
/// occurrence; or the refusal of its first bad entry.
pub open spec fn collect_item_ids(items: Seq<ParamIdItem>) -> Result<Seq<u16>, ParamListErrorView>
    decreases items.len(),
{
    if items.len() == 0 {
        Ok(Seq::empty())
    } else {
        match collect_item_ids(items.drop_last()) {
            Err(e) => Err(e),
            Ok(ids) => match item_id(items.last(), items.len() - 1) {
                Err(e) => Err(e),
                Ok(id) => Ok(push_unique(ids, id)),
            },
        }
    }
}

/// The parts of `s` between commas, as `str::split(',')` gives them.
pub open spec fn split_commas(s: Seq<char>) -> Seq<Seq<char>>
    decreases s.len(),
{
    if s.len() == 0 {
        seq![Seq::empty()]
    } else {
        let parts = split_commas(s.drop_last());
        if s.last() == ',' {
            parts.push(Seq::empty())
        } else {
            parts.update(parts.len() - 1, parts.last().push(s.last()))
        }
    }
}

/// The ids that the parts of a text name, each once, in the order of first
/// occurrence; parts that are blank once trimmed are skipped. Or the
/// refusal of the first part that writes no id.
pub open spec fn collect_text_ids(parts: Seq<Seq<char>>) -> Result<Seq<u16>, ParamListErrorView>
    decreases parts.len(),
{
    if parts.len() == 0 {
        Ok(Seq::empty())
    } else {
        match collect_text_ids(parts.drop_last()) {
            Err(e) => Err(e),
            Ok(ids) => {
                let p = trim(parts.last());
                if p.len() == 0 {
                    Ok(ids)
                } else {
                    match hex_or_dec_value(p) {
                        Some(id) => Ok(push_unique(ids, id)),
                        None => Err(ParamListErrorView::InvalidText(p)),
                    }
                }
            },
        }
    }
}

/// The ids that a message names: none where it names no list, else those
/// of its list, which must name at least one.
pub open spec fn param_list_ids(params: Option<ParamList>) -> Result<Option<Seq<u16>>, ParamListErrorView> {
    match params {
        None => Ok(None),
        Some(ParamList::Other) => Err(ParamListErrorView::NotListOrText),
        Some(list) => {
            let collected = match list {
                ParamList::Items(items) => collect_item_ids(items@),
                ParamList::Text(t) => collect_text_ids(split_commas(t@)),
                ParamList::Other => Err(ParamListErrorView::NotListOrText),
            };
            match collected {
                Err(e) => Err(e),
                Ok(ids) => if ids.len() == 0 {
                    Err(ParamListErrorView::Empty)
                } else {
                    Ok(Some(ids))
                },
            }
        },
    }
}

/// Whether `ids` holds `id`.
fn contains_id(ids: &Vec<u16>, id: u16) -> (r: bool)
    ensures
        r == ids@.contains(id),
{
    let mut i: usize = 0;
    while i < ids.len()
        invariant
            i <= ids@.len(),
            forall|j: int| 0 <= j < i ==> ids@[j] != id,
        decreases ids@.len() - i,
    {
        if ids[i] == id {
            assert(ids@[i as int] == id);
            return true;
        }
        i = i + 1;
    }
    false
}

/// Appends `id` to `ids` unless `ids` holds it already.
fn push_unique_id(ids: &mut Vec<u16>, id: u16)
    ensures
        final(ids)@ == push_unique(old(ids)@, id),
{
    if !contains_id(ids, id) {
        ids.push(id);
    }
}

proof fn lemma_item_refusal_stands(items: Seq<ParamIdItem>, k: int)
    requires
        0 <= k <= items.len(),
        collect_item_ids(items.take(k)) is Err,
    ensures
        collect_item_ids(items) == collect_item_ids(items.take(k)),
    decreases items.len(),
{
    if k == items.len() {
        assert(items.take(k) =~= items);
    } else {
        assert(items.drop_last().take(k) =~= items.take(k));
        lemma_item_refusal_stands(items.drop_last(), k);
    }
}

proof fn lemma_text_refusal_stands(parts: Seq<Seq<char>>, k: int)
    requires
        0 <= k <= parts.len(),
        collect_text_ids(parts.take(k)) is Err,
    ensures
        collect_text_ids(parts) == collect_text_ids(parts.take(k)),
    decreases parts.len(),
{
    if k == parts.len() {
        assert(parts.take(k) =~= parts);
    } else {
        assert(parts.drop_last().take(k) =~= parts.take(k));
        lemma_text_refusal_stands(parts.drop_last(), k);
    }
}

/// The ids of a list of entries.
fn collect_items(items: &Vec<ParamIdItem>) -> (r: Result<Vec<u16>, ParamListError>)
    ensures
        r matches Ok(ids) ==> collect_item_ids(items@) == Ok::<Seq<u16>, ParamListErrorView>(ids@),
        r matches Err(e) ==> collect_item_ids(items@) == Err::<Seq<u16>, ParamListErrorView>(e@),
{
    let mut out: Vec<u16> = Vec::new();
    let mut i: usize = 0;
    assert(items@.take(0) =~= Seq::<ParamIdItem>::empty());
    while i < items.len()
        invariant
            i <= items@.len(),
            collect_item_ids(items@.take(i as int)) == Ok::<Seq<u16>, ParamListErrorView>(out@),
        decreases items@.len() - i,
    {
        let ghost next = items@.take(i + 1);
        assert(next.drop_last() =~= items@.take(i as int));
        assert(next.last() == items@[i as int]);
        let id: u16 = match &items[i] {
            ParamIdItem::Number { unsigned: Some(x) } => (*x % 0x10000) as u16,
            ParamIdItem::Text(t) => match parse_hex_or_dec(t.as_str()) {
                Some(id) => id,
                None => {
                    let e = ParamListError::InvalidText { text: t.clone() };
                    proof {
                        lemma_item_refusal_stands(items@, i + 1);
                    }
                    return Err(e);
                },
            },
            _ => {
                proof {
                    lemma_item_refusal_stands(items@, i + 1);
                }
                return Err(ParamListError::InvalidId { index: i });
            },
        };
        push_unique_id(&mut out, id);
        i = i + 1;
    }
    assert(items@.take(items@.len() as int) =~= items@);
    Ok(out)
}

/// Takes in the part `s[from..to]` of a text of ids: a blank part is
/// skipped, any other must write an id, which is appended unless present.
fn take_text_part(s: &str, from: usize, to: usize, out: &mut Vec<u16>) -> (r: Result<(), ParamListError>)
    requires
        from <= to <= s@.len(),
    ensures
        ({
            let p = trim(s@.subrange(from as int, to as int));
            if p.len() == 0 {
                r is Ok && final(out)@ == old(out)@
            } else {
                match hex_or_dec_value(p) {
                    Some(id) => r is Ok && final(out)@ == push_unique(old(out)@, id),
                    None => r matches Err(e) && e@ == ParamListErrorView::InvalidText(p),
                }
            }
        }),
{
    let (a, b) = trim_bounds(s, from, to);
    if a == b {
        return Ok(());
    }
    let part = s.substring_char(a, b);
    match parse_hex_or_dec(part) {
        Some(id) => {
            push_unique_id(out, id);
            Ok(())
        },
        None => Err(ParamListError::InvalidText { text: String::from_str(part) }),
    }
}

proof fn lemma_split_commas_len(s: Seq<char>)
    ensures
        split_commas(s).len() >= 1,
    decreases s.len(),
{
    if s.len() > 0 {
        lemma_split_commas_len(s.drop_last());
    }
}

/// The parts of a prefix that a comma has closed are parts of the whole text.
proof fn lemma_split_commas_prefix(s: Seq<char>, j: int)
    requires
        0 <= j <= s.len(),
    ensures
        split_commas(s.take(j)).len() >= 1,
        split_commas(s).len() >= split_commas(s.take(j)).len(),
        split_commas(s).take(split_commas(s.take(j)).len() - 1) == split_commas(s.take(j)).drop_last(),
    decreases s.len(),
{
    lemma_split_commas_len(s);
    lemma_split_commas_len(s.take(j));
    if j == s.len() {
        assert(s.take(j) =~= s);
        assert(split_commas(s).take(split_commas(s).len() - 1) =~= split_commas(s).drop_last());
    } else {
        let t = s.drop_last();
        assert(t.take(j) =~= s.take(j));
        lemma_split_commas_prefix(t, j);
        lemma_split_commas_len(t);
        let m = split_commas(s.take(j)).len() - 1;
        assert(split_commas(s).take(m) =~= split_commas(t).take(m));
    }
}

/// The ids of a text of ids separated by commas.
fn collect_text(s: &str) -> (r: Result<Vec<u16>, ParamListError>)
    ensures
        r matches Ok(ids) ==> collect_text_ids(split_commas(s@)) == Ok::<Seq<u16>, ParamListErrorView>(ids@),
        r matches Err(e) ==> collect_text_ids(split_commas(s@)) == Err::<Seq<u16>, ParamListErrorView>(e@),
{
    let n = s.unicode_len();
    let mut out: Vec<u16> = Vec::new();
    let mut start: usize = 0;
    let mut i: usize = 0;
    let ghost mut done: Seq<Seq<char>> = Seq::empty();
    assert(s@.take(0) =~= Seq::<char>::empty());
    assert(split_commas(s@.take(0)) =~= done.push(s@.subrange(0, 0)));
    while i < n
        invariant
            n == s@.len(),
            start <= i <= n,
            split_commas(s@.take(i as int)) == done.push(s@.subrange(start as int, i as int)),
            collect_text_ids(done) == Ok::<Seq<u16>, ParamListErrorView>(out@),
        decreases n - i,
    {
        let c = s.get_char(i);
        let ghost prefix = s@.take(i + 1);
        assert(prefix.drop_last() =~= s@.take(i as int));
        assert(prefix.last() == c);
        if c == ',' {
            let ghost parts = done.push(s@.subrange(start as int, i as int));
            assert(parts.drop_last() =~= done);
            assert(split_commas(prefix) =~= parts.push(Seq::empty()));
            match take_text_part(s, start, i, &mut out) {
                Ok(()) => {},
                Err(e) => {
                    proof {
                        assert(split_commas(s@) =~= split_commas(s@.take(n as int))) by {
                            assert(s@.take(n as int) =~= s@);
                        }
                        assert(split_commas(prefix).drop_last() =~= parts);
                        lemma_split_commas_prefix(s@, i + 1);
                        lemma_text_refusal_stands(split_commas(s@), parts.len() as int);
                    }
                    return Err(e);
                },
            }
            proof {
                done = parts;
            }
            start = i + 1;
            assert(s@.subrange(start as int, i + 1) =~= Seq::<char>::empty());
            assert(split_commas(prefix) =~= done.push(s@.subrange(start as int, i + 1)));
        } else {
            assert(s@.subrange(start as int, i as int).push(c) =~= s@.subrange(start as int, i + 1));
            assert(split_commas(prefix) =~= done.push(s@.subrange(start as int, i + 1)));
        }
        i = i + 1;
    }
    let ghost parts = done.push(s@.subrange(start as int, n as int));
    assert(s@.take(n as int) =~= s@);
    assert(parts.drop_last() =~= done);
    match take_text_part(s, start, n, &mut out) {
        Ok(()) => Ok(out),
        Err(e) => Err(e),
    }
}

/// The ids that a message names, as `param_list_ids` states.
pub fn parse_param_list(params: &Option<ParamList>) -> (r: Result<Option<Vec<u16>>, ParamListError>)
    ensures
        r matches Ok(None) ==> param_list_ids(*params) == Ok::<Option<Seq<u16>>, ParamListErrorView>(None),
        r matches Ok(Some(ids)) ==> param_list_ids(*params) == Ok::<Option<Seq<u16>>, ParamListErrorView>(Some(ids@)),
        r matches Err(e) ==> param_list_ids(*params) == Err::<Option<Seq<u16>>, ParamListErrorView>(e@),
{
    let collected = match params {
        None => return Ok(None),
        Some(ParamList::Items(items)) => collect_items(items),
        Some(ParamList::Text(t)) => collect_text(t.as_str()),
        Some(ParamList::Other) => return Err(ParamListError::NotListOrText),
    };
    match collected {
        Err(e) => Err(e),
        Ok(ids) => if ids.len() == 0 {
            Err(ParamListError::Empty)
        } else {
            Ok(Some(ids))
        },
    }
}

proof fn lemma_push_unique_distinct(ids: Seq<u16>, id: u16)
    requires
        no_duplicates(ids),
    ensures
        no_duplicates(push_unique(ids, id)),
        push_unique(ids, id).contains(id),
        forall|x: u16| #[trigger] push_unique(ids, id).contains(x) <==> (ids.contains(x) || x == id),
{
    if !ids.contains(id) {
        assert(ids.push(id)[ids.len() as int] == id);
        assert forall|x: u16| #[trigger] ids.push(id).contains(x) implies (ids.contains(x) || x == id) by {
            let k = choose|k: int| 0 <= k < ids.push(id).len() && ids.push(id)[k] == x;
            if k < ids.len() {
                assert(ids[k] == x);
            }
        }
        assert forall|x: u16| ids.contains(x) implies #[trigger] ids.push(id).contains(x) by {
            let k = choose|k: int| 0 <= k < ids.len() && ids[k] == x;
            assert(ids.push(id)[k] == x);
        }
    }
}

proof fn lemma_item_ids_distinct(items: Seq<ParamIdItem>)
    ensures
        collect_item_ids(items) matches Ok(ids) ==> no_duplicates(ids),
    decreases items.len(),
{
    if items.len() > 0 {
        lemma_item_ids_distinct(items.drop_last());
        if let Ok(ids) = collect_item_ids(items.drop_last()) {
            if let Ok(id) = item_id(items.last(), items.len() - 1) {
                lemma_push_unique_distinct(ids, id);
            }
        }
    }
}

proof fn lemma_text_ids_distinct(parts: Seq<Seq<char>>)
    ensures
        collect_text_ids(parts) matches Ok(ids) ==> no_duplicates(ids),
    decreases parts.len(),
{
    if parts.len() > 0 {
        lemma_text_ids_distinct(parts.drop_last());
        if let Ok(ids) = collect_text_ids(parts.drop_last()) {
            if let Some(id) = hex_or_dec_value(trim(parts.last())) {
                lemma_push_unique_distinct(ids, id);
            }
        }
    }
}

/// A list of ids that a message names holds at least one id and none twice.
pub proof fn lemma_param_list_ids_distinct(params: Option<ParamList>)
    ensures
        param_list_ids(params) matches Ok(Some(ids)) ==> ids.len() > 0 && no_duplicates(ids),
{
    match params {
        Some(ParamList::Items(items)) => lemma_item_ids_distinct(items@),
        Some(ParamList::Text(t)) => lemma_text_ids_distinct(split_commas(t@)),
        _ => {},
    }
}

/// The value of a hexadecimal digit, either case.
pub open spec fn hex_digit_table(c: char) -> Option<nat> {
    match c {
        '0' => Some(0), '1' => Some(1), '2' => Some(2), '3' => Some(3), '4' => Some(4),
        '5' => Some(5), '6' => Some(6), '7' => Some(7), '8' => Some(8), '9' => Some(9),
        'a' => Some(10), 'b' => Some(11), 'c' => Some(12), 'd' => Some(13), 'e' => Some(14), 'f' => Some(15),
        'A' => Some(10), 'B' => Some(11), 'C' => Some(12), 'D' => Some(13), 'E' => Some(14), 'F' => Some(15),
        _ => None,
    }
}

/// The value of a decimal digit.
pub open spec fn decimal_digit_table(c: char) -> Option<nat> {
    match c {
        '0' => Some(0), '1' => Some(1), '2' => Some(2), '3' => Some(3), '4' => Some(4),
        '5' => Some(5), '6' => Some(6), '7' => Some(7), '8' => Some(8), '9' => Some(9),
        _ => None,
    }
}

/// Digits are read as the usual digits: `0`-`9` in both bases, and `a`-`f`
/// and `A`-`F` as 10 to 15 in base 16 only.
pub proof fn lemma_digit_values(c: char)
    ensures
        digit_value(c, true) == hex_digit_table(c),
        digit_value(c, false) == decimal_digit_table(c),
{
}

/// The number that 1 to 4 hexadecimal digits write.
pub open spec fn hex_number(d: Seq<char>) -> nat {
    let t = |i: int| hex_digit_table(d[i])->0;
    if d.len() == 1 {
        t(0)
    } else if d.len() == 2 {
        t(0) * 16 + t(1)
    } else if d.len() == 3 {
        t(0) * 256 + t(1) * 16 + t(2)
    } else {
        t(0) * 4096 + t(1) * 256 + t(2) * 16 + t(3)
    }
}

/// `0x` or `0X` followed by 1 to 4 hexadecimal digits, of either case,
/// always parses, to the number those digits write.
pub proof fn lemma_short_hex_texts_parse(x: char, d: Seq<char>)
    requires
        x == 'x' || x == 'X',
        1 <= d.len() <= 4,
        forall|i: int| 0 <= i < d.len() ==> #[trigger] hex_digit_table(d[i]) is Some,
    ensures
        hex_or_dec_value(seq!['0', x] + d) == Some(hex_number(d) as u16),
        hex_number(d) <= 0xFFFF,
{
    let s = seq!['0', x] + d;
    assert(has_hex_prefix(s));
    assert(s.skip(2) =~= d);
    assert forall|i: int| 0 <= i < d.len() implies #[trigger] digit_value(d[i], true) == hex_digit_table(d[i]) && hex_digit_table(d[i])->0 < 16 by {
        lemma_digit_values(d[i]);
    }
    let d1 = d.take(1);
    let d2 = d.take(2);
    let d3 = d.take(3);
    assert(d1.drop_last() =~= Seq::<char>::empty());
    assert(digits_value(Seq::<char>::empty(), true) == Some(0nat));
    assert(d1.last() == d[0]);
    assert(digits_value(d1, true) == Some(hex_digit_table(d[0])->0));
    if d.len() == 1 {
        assert(d1 =~= d);
    } else {
        assert(d2.drop_last() =~= d1);
        assert(d2.last() == d[1]);
        assert(digits_value(d2, true) == Some(hex_digit_table(d[0])->0 * 16 + hex_digit_table(d[1])->0));
        if d.len() == 2 {
            assert(d2 =~= d);
        } else {
            assert(d3.drop_last() =~= d2);
            assert(d3.last() == d[2]);
            assert(digits_value(d3, true) == Some((hex_digit_table(d[0])->0 * 16 + hex_digit_table(d[1])->0) * 16 + hex_digit_table(d[2])->0));
            if d.len() == 3 {
                assert(d3 =~= d);
            } else {
                assert(d.drop_last() =~= d3);
                assert(d.last() == d[3]);
            }
        }
    }
}

/// The case of hexadecimal digits, and of the `x` of the prefix, does not
/// change what a text parses to.
pub proof fn lemma_hex_case_is_ignored(x: char, y: char, d: Seq<char>, e: Seq<char>)
    requires
        x == 'x' || x == 'X',
        y == 'x' || y == 'X',
        1 <= d.len() <= 4,
        d.len() == e.len(),
        forall|i: int| 0 <= i < d.len() ==> #[trigger] hex_digit_table(d[i]) is Some,
        forall|i: int| 0 <= i < d.len() ==> #[trigger] hex_digit_table(e[i]) == hex_digit_table(d[i]),
    ensures
        hex_or_dec_value(seq!['0', x] + d) == hex_or_dec_value(seq!['0', y] + e),
{
    assert forall|i: int| 0 <= i < e.len() implies #[trigger] hex_digit_table(e[i]) is Some by {
        assert(hex_digit_table(e[i]) == hex_digit_table(d[i]));
    }
    lemma_short_hex_texts_parse(x, d);
    lemma_short_hex_texts_parse(y, e);
    assert(hex_number(d) == hex_number(e));
}

/// The observation lists hold, in this order, the ids that the gateway
/// observes: the mode, mechanical position, filtered current, mechanical
/// velocity and bus voltage, then three diagnostic readings for the
/// realtime list; the diagnostic block `0x300C..=0x3044` followed by those
/// five runtime readings for the full list.
pub proof fn lemma_observation_list_ids()
    ensures
        realtime_observation_list() == seq![0x7005u16, 0x7019, 0x701A, 0x701B, 0x701C, 0x3025, 0x302B, 0x302C],
        full_observation_list() == seq![
            0x300Cu16, 0x300D, 0x300E, 0x300F, 0x3010, 0x3011, 0x3012, 0x3013, 0x3015, 0x3016, 0x3017, 0x3018,
            0x3019, 0x301A, 0x301B, 0x301D, 0x301E, 0x3020, 0x3021, 0x3022, 0x3023, 0x3024, 0x3025, 0x3026,
            0x3027, 0x3028, 0x3029, 0x302A, 0x302B, 0x302C, 0x302D, 0x302E, 0x302F, 0x3030, 0x3031, 0x3033,
            0x3034, 0x3035, 0x3036, 0x3037, 0x3038, 0x3039, 0x303A, 0x303B, 0x303C, 0x303D, 0x303E, 0x303F,
            0x3041, 0x3042, 0x3043, 0x3044, 0x7005, 0x7019, 0x701A, 0x701B, 0x701C
        ],
{
    assert(realtime_observation_list() =~= seq![0x7005u16, 0x7019, 0x701A, 0x701B, 0x701C, 0x3025, 0x302B, 0x302C]);
    assert(full_observation_list() =~= seq![
            0x300Cu16, 0x300D, 0x300E, 0x300F, 0x3010, 0x3011, 0x3012, 0x3013, 0x3015, 0x3016, 0x3017, 0x3018,
            0x3019, 0x301A, 0x301B, 0x301D, 0x301E, 0x3020, 0x3021, 0x3022, 0x3023, 0x3024, 0x3025, 0x3026,
            0x3027, 0x3028, 0x3029, 0x302A, 0x302B, 0x302C, 0x302D, 0x302E, 0x302F, 0x3030, 0x3031, 0x3033,
            0x3034, 0x3035, 0x3036, 0x3037, 0x3038, 0x3039, 0x303A, 0x303B, 0x303C, 0x303D, 0x303E, 0x303F,
            0x3041, 0x3042, 0x3043, 0x3044, 0x7005, 0x7019, 0x701A, 0x701B, 0x701C
        ]);
}

} // verus!
