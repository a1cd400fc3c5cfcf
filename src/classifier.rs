//! Recognition of development-tool processes by name.
//!
//! A process name is tracked when its lower-cased form contains one of a fixed
//! list of tool identifiers anywhere inside it. The match is deliberately
//! unscoped: "idea" also matches inside "my-idea-notes.txt".
use vstd::prelude::*;
use vstd::string::*;

verus! {

/// The lower-case form of a string, as `str::to_lowercase` computes it.
pub uninterp spec fn lower_of(s: Seq<char>) -> Seq<char>;

/// Relies on `str::to_lowercase`: the result depends on the characters of the
/// input alone, and an empty input gives an empty result.
#[verifier::external_body]
fn lowercase(s: &str) -> (r: String)
    ensures
        r@ == lower_of(s@),
        s@.len() == 0 ==> r@.len() == 0,
{
    s.to_lowercase()
}

/// `needle` occurs in `hay` starting at position `i`.
pub open spec fn occurs_at(needle: Seq<char>, hay: Seq<char>, i: int) -> bool {
    0 <= i && i + needle.len() <= hay.len() && hay.subrange(i, i + needle.len()) == needle
}

/// `needle` occurs somewhere in `hay`.
pub open spec fn contains_seq(hay: Seq<char>, needle: Seq<char>) -> bool {
    exists|i: int| occurs_at(needle, hay, i)
}

/// The identifiers of the development tools that are tracked.
pub open spec fn ide_name_list() -> Seq<Seq<char>> {
    seq![
        "cursor"@,
        "trae"@,
        "qoder"@,
        "kiro"@,
        "code"@,
        "devenv"@,
        "idea"@,
        "pycharm"@,
        "webstorm"@,
        "clion"@,
    ]
}

/// The character sequences of a list of strings.
pub open spec fn names_view(names: Seq<String>) -> Seq<Seq<char>> {
    names.map_values(|s: String| s@)
}

/// Some name of `names` occurs in `lowered`.
pub open spec fn matches_any(lowered: Seq<char>, names: Seq<Seq<char>>) -> bool {
    exists|k: int| 0 <= k < names.len() && #[trigger] contains_seq(lowered, names[k])
}

/// A process name is tracked when its lower-case form contains a tool identifier.
pub open spec fn is_ide_process_name(name: Seq<char>) -> bool {
    matches_any(lower_of(name), ide_name_list())
}

fn occurs_at_exec(hay: &str, needle: &str, i: usize, n: usize, m: usize) -> (r: bool)
    requires
        n == hay@.len(),
        m == needle@.len(),
        i + m <= n,
    ensures
        r == occurs_at(needle@, hay@, i as int),
{
    let mut j: usize = 0;
    while j < m
        invariant
            0 <= j <= m,
            i + m <= n,
            n == hay@.len(),
            m == needle@.len(),
            forall|k: int| 0 <= k < j ==> hay@[i + k] == needle@[k],
        decreases m - j,
    {
        if hay.get_char(i + j) != needle.get_char(j) {
            assert(hay@.subrange(i as int, i + m)[j as int] != needle@[j as int]);
            return false;
        }
        j = j + 1;
    }
    assert(hay@.subrange(i as int, i + m) =~= needle@);
    true
}

/// Whether `needle` occurs as a contiguous run of characters in `hay`.
pub fn contains_str(hay: &str, needle: &str) -> (r: bool)
    ensures
        r == contains_seq(hay@, needle@),
{
    let n = hay.unicode_len();
    let m = needle.unicode_len();
    if m > n {
        return false;
    }
    let last = n - m;
    let mut i: usize = 0;
    loop
        invariant
            m <= n,
            last == n - m,
            n == hay@.len(),
            m == needle@.len(),
            i <= last,
            forall|k: int| 0 <= k < i ==> !occurs_at(needle@, hay@, k),
        decreases last - i,
    {
        if occurs_at_exec(hay, needle, i, n, m) {
            return true;
        }
        if i == last {
            return false;
        }
        i = i + 1;
    }
}

/// Whether one of `names` occurs in the already lower-cased name `lowered`.
pub fn matches_any_name(lowered: &str, names: &Vec<String>) -> (r: bool)
    ensures
        r == matches_any(lowered@, names_view(names@)),
{
    let mut k: usize = 0;
    while k < names.len()
        invariant
            0 <= k <= names.len(),
            forall|j: int| 0 <= j < k ==> !contains_seq(lowered@, #[trigger] names_view(names@)[j]),
        decreases names.len() - k,
    {
        if contains_str(lowered, names[k].as_str()) {
            assert(contains_seq(lowered@, names_view(names@)[k as int]));
            return true;
        }
        k = k + 1;
    }
    false
}

/// The list of tracked tool identifiers.
pub fn ide_names() -> (names: Vec<String>)
    ensures
        names_view(names@) == ide_name_list(),
{
    let mut names: Vec<String> = Vec::new();
    names.push(String::from_str("cursor"));
    names.push(String::from_str("trae"));
    names.push(String::from_str("qoder"));
    names.push(String::from_str("kiro"));
    names.push(String::from_str("code"));
    names.push(String::from_str("devenv"));
    names.push(String::from_str("idea"));
    names.push(String::from_str("pycharm"));
    names.push(String::from_str("webstorm"));
    names.push(String::from_str("clion"));
    assert(names_view(names@) =~= ide_name_list());
    names
}

/// Whether the process name `name`, lower-cased, contains one of `names`.
pub fn name_matches(name: &str, names: &Vec<String>) -> (r: bool)
    ensures
        r == matches_any(lower_of(name@), names_view(names@)),
{
    let lowered = lowercase(name);
    matches_any_name(lowered.as_str(), names)
}

} // verus!
