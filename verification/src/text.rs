//! Small operations on texts: decimal numerals, file names and paths.
//!
//! A path is a text whose components are separated by `/`.

use vstd::prelude::*;
use vstd::string::StringExecFns;

verus! {

/// `String::push` appends one character. Believed, not proved: the text grows by
/// exactly that character at its end, as the method's documentation says.
pub assume_specification[ String::push ](s: &mut String, ch: char)
    ensures
        final(s)@ == old(s)@.push(ch),
;

/// The decimal digit for `d`.
pub open spec fn digit_char(d: nat) -> char
    recommends
        d < 10,
{
    (0x30 + d) as u8 as char
}

/// The decimal numeral of `n`, without leading zeros.
pub open spec fn decimal_text(n: nat) -> Seq<char>
    decreases n,
{
    if n < 10 {
        seq![digit_char(n)]
    } else {
        decimal_text(n / 10).push(digit_char(n % 10))
    }
}

/// A numeral has at least one digit, and at least two from ten on.
pub proof fn lemma_decimal_text_len(n: nat)
    ensures
        decimal_text(n).len() >= 1,
        n >= 10 ==> decimal_text(n).len() >= 2,
    decreases n,
{
    if n >= 10 {
        lemma_decimal_text_len(n / 10);
    }
}

/// Different numbers have different numerals.
pub proof fn lemma_decimal_text_injective(a: nat, b: nat)
    requires
        decimal_text(a) == decimal_text(b),
    ensures
        a == b,
    decreases a,
{
    lemma_decimal_text_len(a);
    lemma_decimal_text_len(b);
    if a < 10 && b < 10 {
        assert(decimal_text(a)[0] == digit_char(a));
        assert(decimal_text(b)[0] == digit_char(b));
        assert(digit_char(a) as u32 == 0x30 + a);
        assert(digit_char(b) as u32 == 0x30 + b);
    } else if a < 10 || b < 10 {
        assert(decimal_text(a).len() != decimal_text(b).len());
    } else {
        let front_a = decimal_text(a / 10);
        let front_b = decimal_text(b / 10);
        assert(decimal_text(a).drop_last() =~= front_a);
        assert(decimal_text(b).drop_last() =~= front_b);
        assert(decimal_text(a).last() == digit_char(a % 10));
        assert(decimal_text(b).last() == digit_char(b % 10));
        assert(digit_char(a % 10) as u32 == 0x30 + a % 10);
        assert(digit_char(b % 10) as u32 == 0x30 + b % 10);
        lemma_decimal_text_injective(a / 10, b / 10);
    }
}

/// Writes `n` in decimal.
pub fn format_decimal(n: u64) -> (text: String)
    ensures
        text@ == decimal_text(n as nat),
{
    // the digits, least significant first
    let mut digits: Vec<u8> = Vec::new();
    let mut rest: u64 = n;
    while rest >= 10
        invariant
            forall|k: int| 0 <= k < digits.len() ==> #[trigger] digits[k] < 10,
            decimal_text(n as nat) == decimal_text(rest as nat) + Seq::new(
                digits.len() as nat,
                |k: int| digit_char(digits[digits.len() - 1 - k] as nat),
            ),
        decreases rest,
    {
        let ghost before = digits@;
        digits.push((rest % 10) as u8);
        proof {
            let tail_before = Seq::new(
                before.len() as nat,
                |k: int| digit_char(before[before.len() - 1 - k] as nat),
            );
            let tail_after = Seq::new(
                digits.len() as nat,
                |k: int| digit_char(digits[digits.len() - 1 - k] as nat),
            );
            assert(decimal_text(rest as nat) == decimal_text((rest / 10) as nat).push(
                digit_char((rest % 10) as nat),
            ));
            assert(decimal_text((rest / 10) as nat).push(digit_char((rest % 10) as nat))
                + tail_before =~= decimal_text((rest / 10) as nat) + tail_after);
        }
        rest = rest / 10;
    }
    let mut text = String::new();
    text.push((0x30 + rest as u8) as char);
    let ghost head = text@;
    assert(head =~= decimal_text(rest as nat));
    let mut i: usize = digits.len();
    while i > 0
        invariant
            i <= digits.len(),
            forall|k: int| 0 <= k < digits.len() ==> #[trigger] digits[k] < 10,
            text@ == head + Seq::new(
                (digits.len() - i) as nat,
                |k: int| digit_char(digits[digits.len() - 1 - k] as nat),
            ),
        decreases i,
    {
        i -= 1;
        text.push((0x30 + digits[i]) as char);
        assert(text@ =~= head + Seq::new(
            (digits.len() - i) as nat,
            |k: int| digit_char(digits[digits.len() - 1 - k] as nat),
        ));
    }
    text
}

/// The decimal numeral of `n`, with a minus sign if it is negative.
pub open spec fn signed_decimal_text(n: int) -> Seq<char> {
    if n < 0 {
        seq!['-'] + decimal_text((-n) as nat)
    } else {
        decimal_text(n as nat)
    }
}

/// Writes `n` in decimal.
pub fn format_signed_decimal(n: i32) -> (text: String)
    ensures
        text@ == signed_decimal_text(n as int),
{
    if n < 0 {
        let magnitude: u64 = (-(n as i64)) as u64;
        let digits = format_decimal(magnitude);
        let mut text = String::new();
        text.push('-');
        text.append(digits.as_str());
        assert(text@ =~= seq!['-'] + digits@);
        text
    } else {
        format_decimal(n as u64)
    }
}

/// `base` followed by `name`.
pub fn joined(base: &str, name: &str) -> (text: String)
    ensures
        text@ == base@ + name@,
{
    let mut text = base.to_owned();
    text.append(name);
    text
}

/// The path `base` extended by `name`.
///
/// A `name` that starts at the root replaces `base`. Otherwise `name` follows
/// `base`, with one separator between them unless `base` is empty or ends
/// with one.
pub open spec fn joined_path(base: Seq<char>, name: Seq<char>) -> Seq<char> {
    if name.len() > 0 && name[0] == '/' {
        name
    } else if base.len() == 0 || base.last() == '/' {
        base + name
    } else {
        base + seq!['/'] + name
    }
}

/// Extends the path `base` by `name`.
pub fn join_path(base: &str, name: &str) -> (path: String)
    ensures
        path@ == joined_path(base@, name@),
{
    let name_len = name.unicode_len();
    if name_len > 0 && name.get_char(0) == '/' {
        return name.to_owned();
    }
    let base_len = base.unicode_len();
    let mut path = base.to_owned();
    if base_len > 0 && base.get_char(base_len - 1) != '/' {
        path.push('/');
    }
    path.append(name);
    path
}

/// The position of the last `/` in `path`, if it has one.
pub open spec fn last_separator(path: Seq<char>) -> Option<int>
    decreases path.len(),
{
    if path.len() == 0 {
        None
    } else if path.last() == '/' {
        Some(path.len() - 1)
    } else {
        last_separator(path.drop_last())
    }
}

/// The directory that holds `path`: what stands before its last separator; the
/// root for an entry of the root; empty for a path without a separator.
pub open spec fn parent_path(path: Seq<char>) -> Seq<char> {
    match last_separator(path) {
        Some(p) => if p == 0 {
            path.take(1)
        } else {
            path.take(p)
        },
        None => Seq::empty(),
    }
}

/// The directory that holds `path`.
pub fn parent_dir(path: &str) -> (parent: String)
    ensures
        parent@ == parent_path(path@),
{
    let len = path.unicode_len();
    let mut i: usize = len;
    assert(path@.take(len as int) =~= path@);
    while i > 0
        invariant
            i <= len,
            len == path@.len(),
            last_separator(path@) == last_separator(path@.take(i as int)),
        decreases i,
    {
        if path.get_char(i - 1) == '/' {
            assert(path@.take(i as int).last() == '/');
            let end: usize = if i == 1 {
                1
            } else {
                i - 1
            };
            let parent = path.substring_char(0, end);
            assert(path@.subrange(0, end as int) =~= path@.take(end as int));
            return parent.to_owned();
        }
        assert(path@.take(i as int).drop_last() =~= path@.take(i - 1));
        i -= 1;
    }
    assert(path@.take(0).len() == 0);
    String::new()
}

/// The position of the last `.` in `name`, if it has one.
pub open spec fn last_dot(name: Seq<char>) -> Option<int>
    decreases name.len(),
{
    if name.len() == 0 {
        None
    } else if name.last() == '.' {
        Some(name.len() - 1)
    } else {
        last_dot(name.drop_last())
    }
}

/// Where a file name splits into stem and extension: at its last `.`, unless the
/// name has none or only a leading one.
pub open spec fn split_point(name: Seq<char>) -> Option<int> {
    match last_dot(name) {
        Some(p) => if p == 0 {
            None
        } else {
            Some(p)
        },
        None => None,
    }
}

/// The stem of a file name: what stands before its last `.`; the whole name if
/// it has no `.` or only a leading one.
pub open spec fn file_stem(name: Seq<char>) -> Seq<char> {
    match split_point(name) {
        Some(p) => name.take(p),
        None => name,
    }
}

/// The extension of a file name: what follows its last `.`; empty if the name
/// has no `.` or only a leading one.
pub open spec fn file_extension(name: Seq<char>) -> Seq<char> {
    match split_point(name) {
        Some(p) => name.skip(p + 1),
        None => Seq::empty(),
    }
}

/// What [`last_dot`] finds: a `.` behind which no other `.` stands.
pub proof fn lemma_last_dot(name: Seq<char>)
    ensures
        match last_dot(name) {
            Some(p) => 0 <= p < name.len() && name[p] == '.' && forall|k: int|
                p < k < name.len() ==> name[k] != '.',
            None => forall|k: int| 0 <= k < name.len() ==> name[k] != '.',
        },
    decreases name.len(),
{
    if name.len() > 0 && name.last() != '.' {
        lemma_last_dot(name.drop_last());
        let front = name.drop_last();
        assert(forall|k: int| 0 <= k < front.len() ==> front[k] == name[k]);
    }
}

/// Stem and extension together are the name without the dot between them.
pub proof fn lemma_stem_and_extension_len(name: Seq<char>)
    ensures
        file_stem(name).len() + file_extension(name).len() + 1 >= name.len(),
{
    lemma_last_dot(name);
}

/// Finds the last `.` of `name`.
pub fn find_last_dot(name: &str) -> (position: Option<usize>)
    ensures
        match position {
            Some(p) => last_dot(name@) == Some(p as int),
            None => last_dot(name@) is None,
        },
{
    let len = name.unicode_len();
    let mut i: usize = len;
    assert(name@.take(len as int) =~= name@);
    while i > 0
        invariant
            i <= len,
            len == name@.len(),
            last_dot(name@) == last_dot(name@.take(i as int)),
        decreases i,
    {
        if name.get_char(i - 1) == '.' {
            assert(name@.take(i as int).last() == '.');
            return Some(i - 1);
        }
        assert(name@.take(i as int).drop_last() =~= name@.take(i - 1));
        i -= 1;
    }
    assert(name@.take(0).len() == 0);
    None
}

/// Splits a file name into its stem and its extension.
pub fn split_file_name(name: &str) -> (parts: (String, String))
    ensures
        parts.0@ == file_stem(name@),
        parts.1@ == file_extension(name@),
{
    let len = name.unicode_len();
    match find_last_dot(name) {
        Some(p) => {
            proof {
                lemma_last_dot(name@);
            }
            if p == 0 {
                (name.to_owned(), String::new())
            } else {
                let stem = name.substring_char(0, p);
                let extension = name.substring_char(p + 1, len);
                assert(name@.subrange(0, p as int) =~= name@.take(p as int));
                assert(name@.subrange(p + 1, len as int) =~= name@.skip(p + 1));
                (stem.to_owned(), extension.to_owned())
            }
        },
        None => (name.to_owned(), String::new()),
    }
}

/// Whether `name` is one of `names`.
pub fn contains_text(names: &Vec<String>, name: &str) -> (found: bool)
    ensures
        found == exists|i: int| 0 <= i < names.len() && (#[trigger] names[i])@ == name@,
{
    let mut i: usize = 0;
    while i < names.len()
        invariant
            i <= names.len(),
            forall|k: int| 0 <= k < i ==> (#[trigger] names[k])@ != name@,
        decreases names.len() - i,
    {
        if crate::platform::same_text(names[i].as_str(), name) {
            return true;
        }
        i += 1;
    }
    false
}

} // verus!
