//! What the command-line client sends: the actions and hints that the user writes as
//! `name:label` and `type:name:value` are turned into the arguments of a `Notify` call.
use vstd::prelude::*;

use crate::config::{find_key, key_index, keys_of, lemma_key_index, string_keys};
use crate::notification::str_eq;
use crate::unicode::{chars_of, decimal, string_from_chars, trim, trim_chars};

verus! {

// ---------------------------------------------------------------------------
// Splitting
// ---------------------------------------------------------------------------

/// The first position of `c` in `s`, or -1.
pub open spec fn char_index(s: Seq<char>, c: char) -> int
    decreases s.len(),
{
    if s.len() == 0 {
        -1
    } else if s[0] == c {
        0
    } else {
        let i = char_index(s.drop_first(), c);
        if i < 0 {
            -1
        } else {
            i + 1
        }
    }
}

proof fn lemma_char_index(s: Seq<char>, c: char)
    ensures
        -1 <= char_index(s, c) < s.len(),
        char_index(s, c) >= 0 ==> s[char_index(s, c)] == c,
        forall|j: int| 0 <= j < char_index(s, c) ==> s[j] != c,
        char_index(s, c) == -1 ==> forall|j: int| 0 <= j < s.len() ==> s[j] != c,
    decreases s.len(),
{
    if s.len() > 0 {
        lemma_char_index(s.drop_first(), c);
        if s[0] != c {
            assert forall|j: int| 1 <= j < s.len() implies s.drop_first()[j - 1] == s[j] by {}
        }
    }
}

/// Finds the first position of `c`.
fn find_char(s: &[char], c: char) -> (r: Option<usize>)
    ensures
        match r {
            Some(i) => i == char_index(s@, c),
            None => char_index(s@, c) == -1,
        },
{
    proof {
        lemma_char_index(s@, c);
    }
    let mut i: usize = 0;
    while i < s.len()
        invariant
            i <= s@.len(),
            forall|j: int| 0 <= j < i ==> s@[j] != c,
            -1 <= char_index(s@, c) < s@.len(),
            char_index(s@, c) >= 0 ==> s@[char_index(s@, c)] == c,
            forall|j: int| 0 <= j < char_index(s@, c) ==> s@[j] != c,
            char_index(s@, c) == -1 ==> forall|j: int| 0 <= j < s@.len() ==> s@[j] != c,
        decreases s@.len() - i,
    {
        if s[i] == c {
            return Some(i);
        }
        i = i + 1;
    }
    None
}

/// The pieces of `s` between the occurrences of `sep`, as `str::split` gives them: one
/// more than there are separators.
pub open spec fn split_on(s: Seq<char>, sep: char) -> Seq<Seq<char>>
    decreases s.len(),
{
    if s.len() == 0 {
        seq![Seq::<char>::empty()]
    } else {
        let prev = split_on(s.drop_last(), sep);
        if s.last() == sep {
            prev.push(Seq::<char>::empty())
        } else {
            prev.update(prev.len() - 1, prev.last().push(s.last()))
        }
    }
}

proof fn lemma_split_nonempty(s: Seq<char>, sep: char)
    ensures
        split_on(s, sep).len() >= 1,
    decreases s.len(),
{
    if s.len() > 0 {
        lemma_split_nonempty(s.drop_last(), sep);
    }
}

/// Splits `s` at each occurrence of `sep`.
fn split_chars(s: &[char], sep: char) -> (r: Vec<Vec<char>>)
    ensures
        r@.map_values(|p: Vec<char>| p@) == split_on(s@, sep),
{
    let mut parts: Vec<Vec<char>> = Vec::new();
    let mut current: Vec<char> = Vec::new();
    let mut i: usize = 0;
    while i < s.len()
        invariant
            i <= s@.len(),
            parts@.map_values(|p: Vec<char>| p@).push(current@) == split_on(s@.subrange(0, i as int), sep),
        decreases s@.len() - i,
    {
        let ghost before = parts@.map_values(|p: Vec<char>| p@).push(current@);
        proof {
            assert(s@.subrange(0, i + 1).drop_last() =~= s@.subrange(0, i as int));
            lemma_split_nonempty(s@.subrange(0, i as int), sep);
        }
        if s[i] == sep {
            let done = current;
            parts.push(done);
            current = Vec::new();
            assert(parts@.map_values(|p: Vec<char>| p@).push(current@) =~= before.push(
                Seq::<char>::empty(),
            ));
        } else {
            current.push(s[i]);
            assert(parts@.map_values(|p: Vec<char>| p@).push(current@) =~= before.update(
                before.len() - 1,
                before.last().push(s@[i as int]),
            ));
        }
        i = i + 1;
    }
    parts.push(current);
    assert(s@.subrange(0, s@.len() as int) =~= s@);
    assert(parts@.map_values(|p: Vec<char>| p@) =~= split_on(s@, sep));
    parts
}

// ---------------------------------------------------------------------------
// Numbers and booleans, as `str::parse` reads them
// ---------------------------------------------------------------------------

pub open spec fn is_digit(c: char) -> bool {
    '0' <= c <= '9'
}

pub open spec fn all_digits(s: Seq<char>) -> bool {
    forall|i: int| 0 <= i < s.len() ==> is_digit(#[trigger] s[i])
}

/// The number that a string of decimal digits writes.
pub open spec fn digits_value(s: Seq<char>) -> nat
    decreases s.len(),
{
    if s.len() == 0 {
        0
    } else {
        10 * digits_value(s.drop_last()) + ((s.last() as nat) - 48) as nat
    }
}

/// The digits after an optional leading sign `+` (and `-` where `signed`).
pub open spec fn unsigned_part(s: Seq<char>, signed: bool) -> Seq<char> {
    if s.len() > 0 && (s[0] == '+' || (signed && s[0] == '-')) {
        s.drop_first()
    } else {
        s
    }
}

/// Whether a number is written with a leading minus.
pub open spec fn is_negative(s: Seq<char>) -> bool {
    s.len() > 0 && s[0] == '-'
}

/// `u8` as `str::parse` reads it: an optional `+` and at least one digit, at most 255.
pub open spec fn spec_parse_u8(s: Seq<char>) -> Option<u8> {
    let d = unsigned_part(s, false);
    if d.len() > 0 && all_digits(d) && digits_value(d) <= 255 {
        Some(digits_value(d) as u8)
    } else {
        None
    }
}

/// `i32` as `str::parse` reads it: an optional sign and at least one digit, within range.
pub open spec fn spec_parse_i32(s: Seq<char>) -> Option<i32> {
    let d = unsigned_part(s, true);
    if d.len() > 0 && all_digits(d) {
        if is_negative(s) {
            if digits_value(d) <= 0x8000_0000 {
                Some((0 - digits_value(d)) as i32)
            } else {
                None
            }
        } else if digits_value(d) <= 0x7fff_ffff {
            Some(digits_value(d) as i32)
        } else {
            None
        }
    } else {
        None
    }
}

/// `bool` as `str::parse` reads it: exactly `true` or `false`.
pub open spec fn spec_parse_bool(s: Seq<char>) -> Option<bool> {
    if s == "true"@ {
        Some(true)
    } else if s == "false"@ {
        Some(false)
    } else {
        None
    }
}

/// The value of a string of digits, or `None` where it is not all digits or exceeds `limit`.
fn digits_up_to(d: &[char], limit: u64) -> (r: Option<u64>)
    requires
        limit <= 0xffff_ffff,
    ensures
        match r {
            Some(v) => all_digits(d@) && v == digits_value(d@) && v <= limit,
            None => !all_digits(d@) || digits_value(d@) > limit,
        },
{
    let mut acc: u64 = 0;
    let mut over = false;
    let mut i: usize = 0;
    while i < d.len()
        invariant
            i <= d@.len(),
            limit <= 0xffff_ffff,
            all_digits(d@.subrange(0, i as int)),
            over <==> digits_value(d@.subrange(0, i as int)) > limit,
            !over ==> acc == digits_value(d@.subrange(0, i as int)),
        decreases d@.len() - i,
    {
        let c = d[i];
        if !('0' <= c && c <= '9') {
            assert(!is_digit(d@.subrange(0, i + 1)[i as int]));
            return None;
        }
        let ghost prefix = d@.subrange(0, i + 1);
        assert(prefix.drop_last() =~= d@.subrange(0, i as int));
        assert(all_digits(prefix));
        let digit = (c as u64) - 48;
        if !over {
            let next = acc * 10 + digit;
            if next > limit {
                over = true;
            } else {
                acc = next;
            }
        }
        i = i + 1;
    }
    assert(d@.subrange(0, d@.len() as int) =~= d@);
    if over {
        None
    } else {
        Some(acc)
    }
}

/// Reads a `u8` as `str::parse` does.
pub fn parse_u8(s: &[char]) -> (r: Option<u8>)
    ensures
        r == spec_parse_u8(s@),
{
    let start: usize = if s.len() > 0 && s[0] == '+' {
        1
    } else {
        0
    };
    let d = &s[start..s.len()];
    assert(d@ =~= unsigned_part(s@, false));
    if d.len() == 0 {
        return None;
    }
    match digits_up_to(d, 255) {
        Some(v) => Some(v as u8),
        None => None,
    }
}

/// Reads an `i32` as `str::parse` does.
pub fn parse_i32(s: &[char]) -> (r: Option<i32>)
    ensures
        r == spec_parse_i32(s@),
{
    let negative = s.len() > 0 && s[0] == '-';
    let start: usize = if s.len() > 0 && (s[0] == '+' || s[0] == '-') {
        1
    } else {
        0
    };
    let d = &s[start..s.len()];
    assert(d@ =~= unsigned_part(s@, true));
    if d.len() == 0 {
        return None;
    }
    if negative {
        match digits_up_to(d, 0x8000_0000) {
            Some(v) => {
                let n: i64 = 0 - (v as i64);
                Some(n as i32)
            },
            None => None,
        }
    } else {
        match digits_up_to(d, 0x7fff_ffff) {
            Some(v) => Some(v as i32),
            None => None,
        }
    }
}

/// Reads a `bool` as `str::parse` does.
pub fn parse_bool(s: &str) -> (r: Option<bool>)
    ensures
        r == spec_parse_bool(s@),
{
    if str_eq(s, "true") {
        Some(true)
    } else if str_eq(s, "false") {
        Some(false)
    } else {
        None
    }
}

// ---------------------------------------------------------------------------
// Actions
// ---------------------------------------------------------------------------

/// Why the client refused what the user wrote.
#[derive(Debug, Clone, PartialEq, Eq)]
pub enum ClientError {
    /// An action entry without a `:`.
    InvalidAction(String),
    /// A hint entry that is not made of three parts.
    InvalidHint(String),
    /// A hint type other than int, byte, bool and string.
    InvalidHintType(String),
    /// A value that its hint type cannot read.
    InvalidHintValue(String),
}

/// The text of an error as the client prints it.
pub open spec fn error_text(e: ClientError) -> Seq<char> {
    match e {
        ClientError::InvalidAction(entry) => "Invalid action format for entry '"@ + entry@
            + "'. Expected format: 'name:desc'"@,
        ClientError::InvalidHint(entry) => "Invalid hint format for entry '"@ + entry@
            + "'. Expected format: 'type:name:value'"@,
        ClientError::InvalidHintType(t) => "Invalid hint type \""@ + t@
            + "\". Valid types are int, byte, bool, and string."@,
        ClientError::InvalidHintValue(v) => "Invalid hint value \""@ + v@ + "\""@,
    }
}

impl ClientError {
    /// The error as the client prints it.
    pub fn describe(&self) -> (r: String)
        ensures
            r@ == error_text(*self),
    {
        let mut r = String::new();
        match self {
            ClientError::InvalidAction(entry) => {
                crate::unicode::append_str(&mut r, "Invalid action format for entry '");
                crate::unicode::append_str(&mut r, entry.as_str());
                crate::unicode::append_str(&mut r, "'. Expected format: 'name:desc'");
            },
            ClientError::InvalidHint(entry) => {
                crate::unicode::append_str(&mut r, "Invalid hint format for entry '");
                crate::unicode::append_str(&mut r, entry.as_str());
                crate::unicode::append_str(&mut r, "'. Expected format: 'type:name:value'");
            },
            ClientError::InvalidHintType(t) => {
                crate::unicode::append_str(&mut r, "Invalid hint type \"");
                crate::unicode::append_str(&mut r, t.as_str());
                crate::unicode::append_str(
                    &mut r,
                    "\". Valid types are int, byte, bool, and string.",
                );
            },
            ClientError::InvalidHintValue(v) => {
                crate::unicode::append_str(&mut r, "Invalid hint value \"");
                crate::unicode::append_str(&mut r, v.as_str());
                crate::unicode::append_str(&mut r, "\"");
            },
        }
        r
    }
}

/// The key and the label that an action entry `name:desc` gives: both trimmed, split at the
/// first `:`.
pub open spec fn action_pair(entry: Seq<char>) -> Option<(Seq<char>, Seq<char>)> {
    let i = char_index(entry, ':');
    if i < 0 {
        None
    } else {
        Some((trim(entry.subrange(0, i)), trim(entry.subrange(i + 1, entry.len() as int))))
    }
}

/// The arguments that a list of action entries gives: key and label of each, in order; the
/// first entry without a `:` is refused.
pub open spec fn spec_build_actions(entries: Seq<Seq<char>>) -> Result<Seq<Seq<char>>, Seq<char>>
    decreases entries.len(),
{
    if entries.len() == 0 {
        Ok(Seq::empty())
    } else {
        match spec_build_actions(entries.drop_last()) {
            Err(e) => Err(e),
            Ok(done) => match action_pair(entries.last()) {
                None => Err(entries.last()),
                Some(p) => Ok(done.push(p.0).push(p.1)),
            },
        }
    }
}

/// Builds the action arguments of a `Notify` call from the entries that the user wrote
/// (see [`spec_build_actions`]).
pub fn build_actions(actions: &[String]) -> (r: Result<Vec<String>, ClientError>)
    ensures
        match spec_build_actions(actions@.map_values(|s: String| s@)) {
            Ok(v) => r matches Ok(out) && out@.map_values(|s: String| s@) == v,
            Err(entry) => r matches Err(ClientError::InvalidAction(e)) && e@ == entry,
        },
{
    let ghost all = actions@.map_values(|s: String| s@);
    let mut out: Vec<String> = Vec::new();
    let mut i: usize = 0;
    assert(all.subrange(0, 0) =~= Seq::<Seq<char>>::empty());
    assert(out@.map_values(|s: String| s@) =~= Seq::<Seq<char>>::empty());
    while i < actions.len()
        invariant
            i <= actions@.len(),
            all == actions@.map_values(|s: String| s@),
            spec_build_actions(all.subrange(0, i as int)) == Ok::<Seq<Seq<char>>, Seq<char>>(
                out@.map_values(|s: String| s@),
            ),
        decreases actions@.len() - i,
    {
        assert(all.subrange(0, i + 1).drop_last() =~= all.subrange(0, i as int));
        assert(all.subrange(0, i + 1).last() == actions@[i as int]@);
        let entry = chars_of(actions[i].as_str());
        match find_char(entry.as_slice(), ':') {
            None => {
                proof {
                    lemma_build_actions_error(all, i as int + 1);
                }
                return Err(ClientError::InvalidAction(actions[i].clone()));
            },
            Some(k) => {
                proof {
                    lemma_char_index(entry@, ':');
                }
                assert(k < entry.len());
                let name = trim_chars(&entry.as_slice()[0..k]);
                let desc = trim_chars(&entry.as_slice()[k + 1..entry.len()]);
                let ghost before = out@.map_values(|s: String| s@);
                out.push(string_from_chars(name.as_slice()));
                out.push(string_from_chars(desc.as_slice()));
                assert(out@.map_values(|s: String| s@) =~= before.push(name@).push(desc@));
                assert(name@ == trim(entry@.subrange(0, k as int)));
                assert(desc@ =~= trim(entry@.subrange(k + 1, entry@.len() as int)));
            },
        }
        i = i + 1;
    }
    assert(all.subrange(0, i as int) =~= all);
    Ok(out)
}

/// An error in a prefix of the entries is the error of all of them.
proof fn lemma_build_actions_error(entries: Seq<Seq<char>>, n: int)
    requires
        0 <= n <= entries.len(),
        spec_build_actions(entries.subrange(0, n)) is Err,
    ensures
        spec_build_actions(entries) == spec_build_actions(entries.subrange(0, n)),
    decreases entries.len() - n,
{
    if n < entries.len() {
        assert(entries.subrange(0, n + 1).drop_last() =~= entries.subrange(0, n));
        lemma_build_actions_error(entries, n + 1);
    } else {
        assert(entries.subrange(0, n) =~= entries);
    }
}

// ---------------------------------------------------------------------------
// Hints
// ---------------------------------------------------------------------------

/// The value of a hint, as the client sends it.
#[derive(Debug, Clone, PartialEq, Eq)]
pub enum HintArg {
    Int(i32),
    Byte(u8),
    Bool(bool),
    Str(String),
}

/// Mathematical model of [`HintArg`].
pub enum HintArgView {
    Int(i32),
    Byte(u8),
    Bool(bool),
    Str(Seq<char>),
}

impl View for HintArg {
    type V = HintArgView;

    open spec fn view(&self) -> HintArgView {
        match self {
            HintArg::Int(v) => HintArgView::Int(*v),
            HintArg::Byte(v) => HintArgView::Byte(*v),
            HintArg::Bool(v) => HintArgView::Bool(*v),
            HintArg::Str(s) => HintArgView::Str(s@),
        }
    }
}

/// Mathematical model of [`ClientError`].
pub enum ClientFailure {
    InvalidAction(Seq<char>),
    InvalidHint(Seq<char>),
    InvalidHintType(Seq<char>),
    InvalidHintValue(Seq<char>),
}

impl View for ClientError {
    type V = ClientFailure;

    open spec fn view(&self) -> ClientFailure {
        match self {
            ClientError::InvalidAction(s) => ClientFailure::InvalidAction(s@),
            ClientError::InvalidHint(s) => ClientFailure::InvalidHint(s@),
            ClientError::InvalidHintType(s) => ClientFailure::InvalidHintType(s@),
            ClientError::InvalidHintValue(s) => ClientFailure::InvalidHintValue(s@),
        }
    }
}

/// The hints that the command line sets with options of their own.
#[derive(Debug, Clone, PartialEq, Eq)]
pub struct HintsData {
    pub urgency: Option<String>,
    pub category: Option<String>,
    pub desktop_entry: Option<String>,
    pub image_path: Option<String>,
    pub resident: Option<bool>,
    pub sound_file: Option<String>,
    pub sound_name: Option<String>,
    pub suppress_sound: Option<bool>,
    pub transient: Option<bool>,
    pub action_icons: Option<bool>,
}

/// The value that a hint of type `t` written `v` has: `int` an `i32`, `byte` a `u8`, `bool`
/// a boolean, `string` the text itself; any other type is refused.
pub open spec fn spec_hint_value(t: Seq<char>, v: Seq<char>) -> Result<HintArgView, ClientFailure> {
    if t == "int"@ {
        match spec_parse_i32(v) {
            Some(x) => Ok(HintArgView::Int(x)),
            None => Err(ClientFailure::InvalidHintValue(v)),
        }
    } else if t == "byte"@ {
        match spec_parse_u8(v) {
            Some(x) => Ok(HintArgView::Byte(x)),
            None => Err(ClientFailure::InvalidHintValue(v)),
        }
    } else if t == "bool"@ {
        match spec_parse_bool(v) {
            Some(x) => Ok(HintArgView::Bool(x)),
            None => Err(ClientFailure::InvalidHintValue(v)),
        }
    } else if t == "string"@ {
        Ok(HintArgView::Str(v))
    } else {
        Err(ClientFailure::InvalidHintType(t))
    }
}

/// The name and value that a hint entry `type:name:value` gives, each part trimmed; an entry
/// of another number of parts is refused.
pub open spec fn hint_entry(entry: Seq<char>) -> Result<(Seq<char>, HintArgView), ClientFailure> {
    let parts = split_on(entry, ':');
    if parts.len() != 3 {
        Err(ClientFailure::InvalidHint(entry))
    } else {
        match spec_hint_value(trim(parts[0]), trim(parts[2])) {
            Ok(a) => Ok((trim(parts[1]), a)),
            Err(e) => Err(e),
        }
    }
}

/// A hint set in the table: it replaces a hint of the same name, or is added at the end.
pub open spec fn put_hint(
    table: Seq<(Seq<char>, HintArgView)>,
    name: Seq<char>,
    value: HintArgView,
) -> Seq<(Seq<char>, HintArgView)> {
    let i = key_index(keys_of(table), name);
    if i >= 0 {
        table.update(i, (name, value))
    } else {
        table.push((name, value))
    }
}

/// A hint added only where the table has none of that name.
pub open spec fn put_default(
    table: Seq<(Seq<char>, HintArgView)>,
    name: Seq<char>,
    value: Option<HintArgView>,
) -> Seq<(Seq<char>, HintArgView)> {
    match value {
        Some(v) => if key_index(keys_of(table), name) >= 0 {
            table
        } else {
            table.push((name, v))
        },
        None => table,
    }
}

/// The table of the hint entries, a later entry replacing an earlier one of the same name;
/// the first entry refused is the error.
pub open spec fn spec_hint_table(entries: Seq<Seq<char>>) -> Result<Seq<(Seq<char>, HintArgView)>, ClientFailure>
    decreases entries.len(),
{
    if entries.len() == 0 {
        Ok(Seq::empty())
    } else {
        match spec_hint_table(entries.drop_last()) {
            Err(e) => Err(e),
            Ok(t) => match hint_entry(entries.last()) {
                Err(e) => Err(e),
                Ok(p) => Ok(put_hint(t, p.0, p.1)),
            },
        }
    }
}

pub open spec fn text_arg(v: Option<String>) -> Option<HintArgView> {
    match v {
        Some(s) => Some(HintArgView::Str(s@)),
        None => None,
    }
}

pub open spec fn bool_arg(v: Option<bool>) -> Option<HintArgView> {
    match v {
        Some(b) => Some(HintArgView::Bool(b)),
        None => None,
    }
}

/// The table completed with the hints given by their own options, where the entries did not
/// set them already.
pub open spec fn with_defaults(t: Seq<(Seq<char>, HintArgView)>, data: HintsData) -> Seq<(Seq<char>, HintArgView)> {
    let t = put_default(t, "urgency"@, text_arg(data.urgency));
    let t = put_default(t, "category"@, text_arg(data.category));
    let t = put_default(t, "desktop-entry"@, text_arg(data.desktop_entry));
    let t = put_default(t, "image-path"@, text_arg(data.image_path));
    let t = put_default(t, "sound-file"@, text_arg(data.sound_file));
    let t = put_default(t, "sound-name"@, text_arg(data.sound_name));
    let t = put_default(t, "resident"@, bool_arg(data.resident));
    let t = put_default(t, "suppress-sound"@, bool_arg(data.suppress_sound));
    let t = put_default(t, "transient"@, bool_arg(data.transient));
    put_default(t, "action-icons"@, bool_arg(data.action_icons))
}

/// The view of a hint table.
pub open spec fn hint_entries(table: Seq<(String, HintArg)>) -> Seq<(Seq<char>, HintArgView)> {
    table.map_values(|e: (String, HintArg)| (e.0@, e.1@))
}

/// Reads the value of a hint of type `t` (see [`spec_hint_value`]).
pub fn parse_hint_value(t: &str, v: &str) -> (r: Result<HintArg, ClientError>)
    ensures
        match spec_hint_value(t@, v@) {
            Ok(a) => r matches Ok(x) && x@ == a,
            Err(e) => r matches Err(x) && x@ == e,
        },
{
    if str_eq(t, "int") {
        let chars = chars_of(v);
        match parse_i32(chars.as_slice()) {
            Some(x) => Ok(HintArg::Int(x)),
            None => Err(ClientError::InvalidHintValue(v.to_owned())),
        }
    } else if str_eq(t, "byte") {
        let chars = chars_of(v);
        match parse_u8(chars.as_slice()) {
            Some(x) => Ok(HintArg::Byte(x)),
            None => Err(ClientError::InvalidHintValue(v.to_owned())),
        }
    } else if str_eq(t, "bool") {
        match parse_bool(v) {
            Some(x) => Ok(HintArg::Bool(x)),
            None => Err(ClientError::InvalidHintValue(v.to_owned())),
        }
    } else if str_eq(t, "string") {
        Ok(HintArg::Str(v.to_owned()))
    } else {
        Err(ClientError::InvalidHintType(t.to_owned()))
    }
}

/// Sets a hint in the table (see [`put_hint`]).
fn put(table: &mut Vec<(String, HintArg)>, name: String, arg: HintArg)
    ensures
        hint_entries(final(table)@) == put_hint(hint_entries(old(table)@), name@, arg@),
{
    let ghost before = table@;
    assert(string_keys(before) =~= keys_of(hint_entries(before)));
    match find_key(table, name.as_str()) {
        Some(i) => {
            proof {
                lemma_key_index(string_keys(before), name@);
            }
            let _ = table.remove(i);
            let ghost v = (name@, arg@);
            table.insert(i, (name, arg));
            assert(hint_entries(table@) =~= hint_entries(before).update(i as int, v));
        },
        None => {
            let ghost v = (name@, arg@);
            table.push((name, arg));
            assert(hint_entries(table@) =~= hint_entries(before).push(v));
        },
    }
}

/// Adds a hint where the table has none of that name (see [`put_default`]).
fn put_absent(table: &mut Vec<(String, HintArg)>, name: &str, arg: Option<HintArg>)
    ensures
        hint_entries(final(table)@) == put_default(
            hint_entries(old(table)@),
            name@,
            match arg {
                Some(a) => Some(a@),
                None => None,
            },
        ),
{
    let ghost before = table@;
    assert(string_keys(before) =~= keys_of(hint_entries(before)));
    match arg {
        None => {},
        Some(a) => {
            match find_key(table, name) {
                Some(_) => {},
                None => {
                    let ghost v = (name@, a@);
                    table.push((name.to_owned(), a));
                    assert(hint_entries(table@) =~= hint_entries(before).push(v));
                },
            }
        },
    }
}

fn text_hint(v: Option<String>) -> (r: Option<HintArg>)
    ensures
        match r {
            Some(a) => Some(a@),
            None => None,
        } == text_arg(v),
{
    match v {
        Some(s) => Some(HintArg::Str(s)),
        None => None,
    }
}

fn bool_hint(v: Option<bool>) -> (r: Option<HintArg>)
    ensures
        match r {
            Some(a) => Some(a@),
            None => None,
        } == bool_arg(v),
{
    match v {
        Some(b) => Some(HintArg::Bool(b)),
        None => None,
    }
}

/// Reads one hint entry (see [`hint_entry`]).
fn read_hint_entry(entry: &str) -> (r: Result<(String, HintArg), ClientError>)
    ensures
        match hint_entry(entry@) {
            Ok(p) => r matches Ok(x) && x.0@ == p.0 && x.1@ == p.1,
            Err(e) => r matches Err(x) && x@ == e,
        },
{
    let chars = chars_of(entry);
    let parts = split_chars(chars.as_slice(), ':');
    assert(parts@.map_values(|p: Vec<char>| p@).len() == parts@.len());
    if parts.len() != 3 {
        return Err(ClientError::InvalidHint(entry.to_owned()));
    }
    assert(parts@.map_values(|p: Vec<char>| p@)[0] == parts@[0]@);
    assert(parts@.map_values(|p: Vec<char>| p@)[1] == parts@[1]@);
    assert(parts@.map_values(|p: Vec<char>| p@)[2] == parts@[2]@);
    let hint_type = string_from_chars(trim_chars(parts[0].as_slice()).as_slice());
    let hint_name = string_from_chars(trim_chars(parts[1].as_slice()).as_slice());
    let hint_value = string_from_chars(trim_chars(parts[2].as_slice()).as_slice());
    match parse_hint_value(hint_type.as_str(), hint_value.as_str()) {
        Ok(a) => Ok((hint_name, a)),
        Err(e) => Err(e),
    }
}

/// Builds the hints of a `Notify` call from the entries that the user wrote and the hints set
/// by their own options: the table of the entries (see [`spec_hint_table`]) completed with
/// the others (see [`with_defaults`]).
pub fn build_hints(hints: &[String], data: HintsData) -> (r: Result<Vec<(String, HintArg)>, ClientError>)
    ensures
        match spec_hint_table(hints@.map_values(|s: String| s@)) {
            Ok(t) => r matches Ok(out) && hint_entries(out@) == with_defaults(t, data),
            Err(e) => r matches Err(x) && x@ == e,
        },
{
    let ghost all = hints@.map_values(|s: String| s@);
    let mut table: Vec<(String, HintArg)> = Vec::new();
    let mut i: usize = 0;
    assert(all.subrange(0, 0) =~= Seq::<Seq<char>>::empty());
    assert(hint_entries(table@) =~= Seq::<(Seq<char>, HintArgView)>::empty());
    while i < hints.len()
        invariant
            i <= hints@.len(),
            all == hints@.map_values(|s: String| s@),
            spec_hint_table(all.subrange(0, i as int)) == Ok::<
                Seq<(Seq<char>, HintArgView)>,
                ClientFailure,
            >(hint_entries(table@)),
        decreases hints@.len() - i,
    {
        assert(all.subrange(0, i + 1).drop_last() =~= all.subrange(0, i as int));
        assert(all.subrange(0, i + 1).last() == hints@[i as int]@);
        match read_hint_entry(hints[i].as_str()) {
            Err(e) => {
                proof {
                    lemma_hint_table_error(all, i as int + 1);
                }
                return Err(e);
            },
            Ok((name, arg)) => {
                put(&mut table, name, arg);
            },
        }
        i = i + 1;
    }
    assert(all.subrange(0, i as int) =~= all);
    let HintsData {
        urgency,
        category,
        desktop_entry,
        image_path,
        resident,
        sound_file,
        sound_name,
        suppress_sound,
        transient,
        action_icons,
    } = data;
    put_absent(&mut table, "urgency", text_hint(urgency));
    put_absent(&mut table, "category", text_hint(category));
    put_absent(&mut table, "desktop-entry", text_hint(desktop_entry));
    put_absent(&mut table, "image-path", text_hint(image_path));
    put_absent(&mut table, "sound-file", text_hint(sound_file));
    put_absent(&mut table, "sound-name", text_hint(sound_name));
    put_absent(&mut table, "resident", bool_hint(resident));
    put_absent(&mut table, "suppress-sound", bool_hint(suppress_sound));
    put_absent(&mut table, "transient", bool_hint(transient));
    put_absent(&mut table, "action-icons", bool_hint(action_icons));
    Ok(table)
}

/// An error in a prefix of the hint entries is the error of all of them.
proof fn lemma_hint_table_error(entries: Seq<Seq<char>>, n: int)
    requires
        0 <= n <= entries.len(),
        spec_hint_table(entries.subrange(0, n)) is Err,
    ensures
        spec_hint_table(entries) == spec_hint_table(entries.subrange(0, n)),
    decreases entries.len() - n,
{
    if n < entries.len() {
        assert(entries.subrange(0, n + 1).drop_last() =~= entries.subrange(0, n));
        lemma_hint_table_error(entries, n + 1);
    } else {
        assert(entries.subrange(0, n) =~= entries);
    }
}

// ---------------------------------------------------------------------------
// The request
// ---------------------------------------------------------------------------

/// The arguments of a `Notify` call.
#[derive(Debug)]
pub struct NotifyRequest {
    pub app_name: String,
    pub replaces_id: u32,
    pub app_icon: String,
    pub summary: String,
    pub body: String,
    pub actions: Vec<String>,
    pub hints: Vec<(String, HintArg)>,
    pub expire_timeout: i32,
}

/// The `Notify` call that a notification of the command line makes: its hints are built
/// first (see [`build_hints`]), then its actions (see [`build_actions`]); the first refusal
/// is the error.
pub fn prepare_notification(
    id: u32,
    app_name: String,
    icon: String,
    summary: String,
    body: String,
    timeout: i32,
    actions: &[String],
    hints: &[String],
    hints_data: HintsData,
) -> (r: Result<NotifyRequest, ClientError>)
    ensures
        match spec_hint_table(hints@.map_values(|s: String| s@)) {
            Err(e) => r matches Err(x) && x@ == e,
            Ok(t) => match spec_build_actions(actions@.map_values(|s: String| s@)) {
                Err(entry) => r matches Err(ClientError::InvalidAction(x)) && x@ == entry,
                Ok(a) => r matches Ok(req) && req.app_name == app_name && req.replaces_id == id
                    && req.app_icon == icon && req.summary == summary && req.body == body
                    && req.expire_timeout == timeout && req.actions@.map_values(|s: String| s@)
                    == a && hint_entries(req.hints@) == with_defaults(t, hints_data),
            },
        },
{
    let built_hints = match build_hints(hints, hints_data) {
        Ok(h) => h,
        Err(e) => {
            return Err(e);
        },
    };
    let built_actions = match build_actions(actions) {
        Ok(a) => a,
        Err(e) => {
            return Err(e);
        },
    };
    Ok(
        NotifyRequest {
            app_name,
            replaces_id: id,
            app_icon: icon,
            summary,
            body,
            actions: built_actions,
            hints: built_hints,
            expire_timeout: timeout,
        },
    )
}

/// Whether a hint table has no entry of a name.
pub open spec fn lacks_hint(t: Seq<(Seq<char>, HintArgView)>, name: Seq<char>) -> bool {
    forall|i: int| 0 <= i < t.len() ==> (#[trigger] t[i]).0 != name
}

/// Whether a hint table has an entry of a name with a value.
pub open spec fn has_hint(t: Seq<(Seq<char>, HintArgView)>, name: Seq<char>, value: HintArgView) -> bool {
    exists|i: int| 0 <= i < t.len() && #[trigger] t[i] == (name, value)
}

/// Adding a hint where a table has none of its name keeps every entry and leaves the other
/// names as they were; the hint is there afterwards exactly where it was given.
proof fn lemma_put_default(t: Seq<(Seq<char>, HintArgView)>, name: Seq<char>, value: Option<HintArgView>)
    ensures
        forall|m: Seq<char>| m != name ==> (#[trigger] lacks_hint(put_default(t, name, value), m) <==> lacks_hint(t, m)),
        forall|m: Seq<char>, x: HintArgView| has_hint(t, m, x) ==> #[trigger] has_hint(put_default(t, name, value), m, x),
        lacks_hint(t, name) ==> match value {
            Some(x) => has_hint(put_default(t, name, value), name, x),
            None => lacks_hint(put_default(t, name, value), name),
        },
{
    lemma_key_index(keys_of(t), name);
    let r = put_default(t, name, value);
    if let Some(x) = value {
        if key_index(keys_of(t), name) < 0 {
            assert(r == t.push((name, x)));
            assert(r[t.len() as int] == (name, x));
            assert forall|m: Seq<char>, y: HintArgView| has_hint(t, m, y) implies #[trigger] has_hint(r, m, y) by {
                let i = choose|i: int| 0 <= i < t.len() && #[trigger] t[i] == (m, y);
                assert(r[i] == t[i]);
            }
            assert forall|m: Seq<char>| m != name implies (#[trigger] lacks_hint(r, m) <==> lacks_hint(t, m)) by {
                if lacks_hint(t, m) {
                    assert forall|i: int| 0 <= i < r.len() implies (#[trigger] r[i]).0 != m by {
                        if i < t.len() {
                            assert(r[i] == t[i]);
                        }
                    }
                }
                if lacks_hint(r, m) {
                    assert forall|i: int| 0 <= i < t.len() implies (#[trigger] t[i]).0 != m by {
                        assert(r[i] == t[i]);
                    }
                }
            }
        } else {
            if lacks_hint(t, name) {
                assert(keys_of(t)[key_index(keys_of(t), name)] == name);
                assert(t[key_index(keys_of(t), name)].0 == name);
            }
        }
    }
}

/// Each option of the client's hints is sent under its own name in the specification: an
/// option that is set puts its value under its name where the entries did not give that
/// name, and an option that is not set puts nothing under it.
pub proof fn law_hint_options(t: Seq<(Seq<char>, HintArgView)>, data: HintsData)
    ensures
        lacks_hint(t, "urgency"@) ==> match data.urgency {
            Some(v) => has_hint(with_defaults(t, data), "urgency"@, HintArgView::Str(v@)),
            None => lacks_hint(with_defaults(t, data), "urgency"@),
        },
        lacks_hint(t, "category"@) ==> match data.category {
            Some(v) => has_hint(with_defaults(t, data), "category"@, HintArgView::Str(v@)),
            None => lacks_hint(with_defaults(t, data), "category"@),
        },
        lacks_hint(t, "desktop-entry"@) ==> match data.desktop_entry {
            Some(v) => has_hint(with_defaults(t, data), "desktop-entry"@, HintArgView::Str(v@)),
            None => lacks_hint(with_defaults(t, data), "desktop-entry"@),
        },
        lacks_hint(t, "image-path"@) ==> match data.image_path {
            Some(v) => has_hint(with_defaults(t, data), "image-path"@, HintArgView::Str(v@)),
            None => lacks_hint(with_defaults(t, data), "image-path"@),
        },
        lacks_hint(t, "sound-file"@) ==> match data.sound_file {
            Some(v) => has_hint(with_defaults(t, data), "sound-file"@, HintArgView::Str(v@)),
            None => lacks_hint(with_defaults(t, data), "sound-file"@),
        },
        lacks_hint(t, "sound-name"@) ==> match data.sound_name {
            Some(v) => has_hint(with_defaults(t, data), "sound-name"@, HintArgView::Str(v@)),
            None => lacks_hint(with_defaults(t, data), "sound-name"@),
        },
        lacks_hint(t, "resident"@) ==> match data.resident {
            Some(b) => has_hint(with_defaults(t, data), "resident"@, HintArgView::Bool(b)),
            None => lacks_hint(with_defaults(t, data), "resident"@),
        },
        lacks_hint(t, "suppress-sound"@) ==> match data.suppress_sound {
            Some(b) => has_hint(with_defaults(t, data), "suppress-sound"@, HintArgView::Bool(b)),
            None => lacks_hint(with_defaults(t, data), "suppress-sound"@),
        },
        lacks_hint(t, "transient"@) ==> match data.transient {
            Some(b) => has_hint(with_defaults(t, data), "transient"@, HintArgView::Bool(b)),
            None => lacks_hint(with_defaults(t, data), "transient"@),
        },
        lacks_hint(t, "action-icons"@) ==> match data.action_icons {
            Some(b) => has_hint(with_defaults(t, data), "action-icons"@, HintArgView::Bool(b)),
            None => lacks_hint(with_defaults(t, data), "action-icons"@),
        },
{
    reveal_strlit("urgency");
    reveal_strlit("category");
    reveal_strlit("desktop-entry");
    reveal_strlit("image-path");
    reveal_strlit("sound-file");
    reveal_strlit("sound-name");
    reveal_strlit("resident");
    reveal_strlit("suppress-sound");
    reveal_strlit("transient");
    reveal_strlit("action-icons");
    assert("urgency"@.len() == 7 && "category"@.len() == 8 && "desktop-entry"@.len() == 13
        && "image-path"@.len() == 10 && "sound-file"@.len() == 10 && "sound-name"@.len() == 10
        && "resident"@.len() == 8 && "suppress-sound"@.len() == 14 && "transient"@.len() == 9
        && "action-icons"@.len() == 12);
    assert("category"@[0] == 'c' && "resident"@[0] == 'r');
    assert("image-path"@[0] == 'i' && "sound-file"@[0] == 's' && "sound-name"@[0] == 's');
    assert("sound-file"@[6] == 'f' && "sound-name"@[6] == 'n');
    let t1 = put_default(t, "urgency"@, text_arg(data.urgency));
    let t2 = put_default(t1, "category"@, text_arg(data.category));
    let t3 = put_default(t2, "desktop-entry"@, text_arg(data.desktop_entry));
    let t4 = put_default(t3, "image-path"@, text_arg(data.image_path));
    let t5 = put_default(t4, "sound-file"@, text_arg(data.sound_file));
    let t6 = put_default(t5, "sound-name"@, text_arg(data.sound_name));
    let t7 = put_default(t6, "resident"@, bool_arg(data.resident));
    let t8 = put_default(t7, "suppress-sound"@, bool_arg(data.suppress_sound));
    let t9 = put_default(t8, "transient"@, bool_arg(data.transient));
    lemma_put_default(t, "urgency"@, text_arg(data.urgency));
    lemma_put_default(t1, "category"@, text_arg(data.category));
    lemma_put_default(t2, "desktop-entry"@, text_arg(data.desktop_entry));
    lemma_put_default(t3, "image-path"@, text_arg(data.image_path));
    lemma_put_default(t4, "sound-file"@, text_arg(data.sound_file));
    lemma_put_default(t5, "sound-name"@, text_arg(data.sound_name));
    lemma_put_default(t6, "resident"@, bool_arg(data.resident));
    lemma_put_default(t7, "suppress-sound"@, bool_arg(data.suppress_sound));
    lemma_put_default(t8, "transient"@, bool_arg(data.transient));
    lemma_put_default(t9, "action-icons"@, bool_arg(data.action_icons));
    assert(with_defaults(t, data) == put_default(t9, "action-icons"@, bool_arg(data.action_icons)));
}

} // verus!

verus! {

proof fn lemma_decimal(n: nat)
    ensures
        decimal(n).len() > 0,
        all_digits(decimal(n)),
        digits_value(decimal(n)) == n,
        is_digit(decimal(n)[0]),
    decreases n,
{
    crate::unicode::lemma_digit_char(n % 10);
    if n >= 10 {
        lemma_decimal(n / 10);
        let s = decimal(n / 10);
        let d = crate::unicode::digit_char(n % 10);
        assert(decimal(n) == s.push(d));
        assert(decimal(n).drop_last() =~= s);
        assert(decimal(n).last() == d);
        assert(10 * (n / 10) + n % 10 == n) by (nonlinear_arith);
        assert(((d as nat) - 48) as nat == n % 10);
        assert(digits_value(decimal(n)) == 10 * digits_value(s) + ((d as nat) - 48) as nat);
        assert forall|i: int| 0 <= i < decimal(n).len() implies is_digit(#[trigger] decimal(n)[i]) by {
            if i < s.len() {
                assert(decimal(n)[i] == s[i]);
            }
        }
    } else {
        assert(decimal(n).drop_last() =~= Seq::<char>::empty());
        assert(decimal(n).last() == crate::unicode::digit_char(n));
        assert(digits_value(Seq::<char>::empty()) == 0);
    }
}

/// A number written in decimal reads back as itself, as an `i32` and, when small enough, as
/// a `u8`.
pub proof fn law_decimal_reads_back(n: nat)
    ensures
        n <= 0x7fff_ffff ==> spec_parse_i32(decimal(n)) == Some(n as i32),
        n <= 255 ==> spec_parse_u8(decimal(n)) == Some(n as u8),
{
    lemma_decimal(n);
    assert(unsigned_part(decimal(n), true) == decimal(n));
    assert(unsigned_part(decimal(n), false) == decimal(n));
}

} // verus!
