//! Which entry names count as text: the rule on extensions.

use vstd::prelude::*;

verus! {

/// Whether `index` is the place of the last `.` in `name`.
pub open spec fn is_last_dot(name: Seq<char>, index: int) -> bool {
    &&& 0 <= index < name.len()
    &&& name[index] == '.'
    &&& forall|later: int| index < later < name.len() ==> name[later] != '.'
}

/// The characters after the last `.` of `name`, or `None` where `name` holds
/// no `.` at all.
pub open spec fn extension(name: Seq<char>) -> Option<Seq<char>> {
    if exists|index: int| is_last_dot(name, index) {
        Some(name.skip((choose|index: int| is_last_dot(name, index)) + 1))
    } else {
        None
    }
}

/// `c` with the letters `A` to `Z` mapped to `a` to `z`; every other
/// character stays as it is.
pub open spec fn ascii_lower(c: char) -> char {
    if 'A' <= c && c <= 'Z' {
        ((c as u32) + 32) as char
    } else {
        c
    }
}

/// `text` with each character lower-cased by [`ascii_lower`].
pub open spec fn lower_cased(text: Seq<char>) -> Seq<char> {
    text.map_values(|c: char| ascii_lower(c))
}

/// Whether an extension, in any mix of upper and lower case, is one of
/// `xml`, `rels` and `txt`.
pub open spec fn is_textual_extension(ext: Seq<char>) -> bool {
    let lower = lower_cased(ext);
    ||| lower == seq!['x', 'm', 'l']
    ||| lower == seq!['r', 'e', 'l', 's']
    ||| lower == seq!['t', 'x', 't']
}

/// Whether the entry called `name` is read as text: it has an extension, and
/// the extension is a textual one.
pub open spec fn is_textual_name(name: Seq<char>) -> bool {
    match extension(name) {
        Some(ext) => is_textual_extension(ext),
        None => false,
    }
}

/// Whether `name` ends in a `.` followed by the letters of `ext`, in either
/// case. `ext` is written in lower case.
pub open spec fn ends_in_extension(name: Seq<char>, ext: Seq<char>) -> bool {
    &&& name.len() > ext.len()
    &&& name[name.len() - ext.len() - 1] == '.'
    &&& forall|i: int|
        0 <= i < ext.len() ==> ascii_lower(name[name.len() - ext.len() + i]) == #[trigger] ext[i]
}

/// A name has at most one last `.`.
proof fn lemma_last_dot_is_unique(name: Seq<char>, first: int, second: int)
    requires
        is_last_dot(name, first),
        is_last_dot(name, second),
    ensures
        first == second,
{
}

/// To end in `.` and a word of lower-case letters is to have an extension
/// that, lower-cased, is that word.
pub proof fn lemma_extension_is_suffix(name: Seq<char>, ext: Seq<char>)
    requires
        forall|i: int| 0 <= i < ext.len() ==> 'a' <= #[trigger] ext[i] <= 'z',
    ensures
        ends_in_extension(name, ext) <==> (extension(name) matches Some(found) && lower_cased(found)
            == ext),
{
    let dot = name.len() - ext.len() - 1;
    if ends_in_extension(name, ext) {
        assert forall|later: int| dot < later < name.len() implies name[later] != '.' by {
            let i = later - name.len() + ext.len();
            assert(ascii_lower(name[name.len() - ext.len() + i]) == ext[i]);
        }
        assert(is_last_dot(name, dot));
        let chosen = choose|index: int| is_last_dot(name, index);
        lemma_last_dot_is_unique(name, chosen, dot);
        assert(lower_cased(name.skip(dot + 1)) =~= ext);
    }
    if extension(name) is Some && lower_cased(extension(name)->0) == ext {
        let found = extension(name)->0;
        let chosen = choose|index: int| is_last_dot(name, index);
        assert(found == name.skip(chosen + 1));
        assert(lower_cased(found).len() == found.len());
        assert(chosen == dot);
        assert forall|i: int| 0 <= i < ext.len() implies ascii_lower(
            name[name.len() - ext.len() + i],
        ) == #[trigger] ext[i] by {
            assert(lower_cased(found)[i] == ascii_lower(found[i]));
        }
    }
}

/// Whether `c` is the lower-case letter `letter` or its upper-case form.
fn is_letter(c: char, letter: char) -> (found: bool)
    requires
        'a' <= letter <= 'z',
    ensures
        found == (ascii_lower(c) == letter),
{
    c == letter || (c as u32) + 32 == letter as u32
}

/// Whether `name`, of `len` characters, ends in a `.` followed by `ext`,
/// whatever the case of its letters.
fn has_extension(name: &str, len: usize, ext: &str) -> (found: bool)
    requires
        len == name@.len(),
        forall|i: int| 0 <= i < ext@.len() ==> 'a' <= #[trigger] ext@[i] <= 'z',
    ensures
        found == ends_in_extension(name@, ext@),
{
    let width = ext.unicode_len();
    if len <= width {
        return false;
    }
    let start = len - width;
    if name.get_char(start - 1) != '.' {
        return false;
    }
    let mut i: usize = 0;
    while i < width
        invariant
            i <= width,
            width == ext@.len(),
            len == name@.len(),
            start == len - width,
            len > width,
            forall|k: int| 0 <= k < ext@.len() ==> 'a' <= #[trigger] ext@[k] <= 'z',
            forall|k: int| 0 <= k < i ==> ascii_lower(name@[start + k]) == #[trigger] ext@[k],
        decreases width - i,
    {
        if !is_letter(name.get_char(start + i), ext.get_char(i)) {
            return false;
        }
        i = i + 1;
    }
    true
}

/// Whether the entry called `path` is to be read as text: the characters
/// after its last `.`, in lower case, are `xml`, `rels` or `txt`. A name
/// without a `.` has no extension and is not textual.
pub fn is_textual_entry(path: &str) -> (textual: bool)
    ensures
        textual == is_textual_name(path@),
{
    let len = path.unicode_len();
    proof {
        reveal_strlit("xml");
        reveal_strlit("rels");
        reveal_strlit("txt");
        assert("xml"@ =~= seq!['x', 'm', 'l']);
        assert("rels"@ =~= seq!['r', 'e', 'l', 's']);
        assert("txt"@ =~= seq!['t', 'x', 't']);
        lemma_extension_is_suffix(path@, "xml"@);
        lemma_extension_is_suffix(path@, "rels"@);
        lemma_extension_is_suffix(path@, "txt"@);
    }
    has_extension(path, len, "xml") || has_extension(path, len, "rels") || has_extension(
        path,
        len,
        "txt",
    )
}

} // verus!
