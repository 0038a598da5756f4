use vstd::prelude::*;
use vstd::slice::slice_subrange;
use vstd::string::StringSliceAdditionalSpecFns;
use vstd::utf8::encode_utf8_decode_utf8;

verus! {

/// ASCII `0`.
pub const DIGIT_0: u8 = 0x30;

/// ASCII `9`.
pub const DIGIT_9: u8 = 0x39;

/// ASCII `A`.
pub const UPPER_A: u8 = 0x41;

/// ASCII `F`.
pub const UPPER_F: u8 = 0x46;

/// ASCII `a`.
pub const LOWER_A: u8 = 0x61;

/// ASCII `f`.
pub const LOWER_F: u8 = 0x66;

/// ASCII `.`.
pub const DOT: u8 = 0x2e;

/// ASCII `:`.
pub const COLON: u8 = 0x3a;

/// Whether two byte strings hold the same bytes.
pub fn bytes_eq(a: &[u8], b: &[u8]) -> (equal: bool)
    ensures
        equal == (a@ == b@),
{
    if a.len() != b.len() {
        return false;
    }
    let mut i: usize = 0;
    while i < a.len()
        invariant
            i <= a.len(),
            a.len() == b.len(),
            forall|j: int| 0 <= j < i ==> a@[j] == b@[j],
        decreases a.len() - i,
    {
        if a[i] != b[i] {
            return false;
        }
        i += 1;
    }
    assert(a@ =~= b@);
    true
}

/// Whether two strings hold the same characters, decided on their UTF-8
/// encodings: the encoding of a string determines its characters.
pub fn str_eq(a: &str, b: &str) -> (equal: bool)
    ensures
        equal == (a@ == b@),
{
    let equal = bytes_eq(a.as_bytes(), b.as_bytes());
    proof {
        encode_utf8_decode_utf8(a@);
        encode_utf8_decode_utf8(b@);
    }
    equal
}

/// The parts of a text that lie between the occurrences of a separator, in
/// their order. A text with n separators has n + 1 parts, some of which may
/// be empty.
pub open spec fn split(text: Seq<u8>, separator: u8) -> Seq<Seq<u8>>
    decreases text.len(),
{
    if text.len() == 0 {
        seq![Seq::empty()]
    } else {
        let before = split(text.drop_last(), separator);
        if text.last() == separator {
            before.push(Seq::empty())
        } else {
            before.drop_last().push(before.last().push(text.last()))
        }
    }
}

/// The bytes of each of a list of byte strings.
pub open spec fn parts_view(parts: Seq<&[u8]>) -> Seq<Seq<u8>> {
    Seq::new(parts.len(), |i: int| parts[i]@)
}

/// Splits a text at each occurrence of a separator.
pub fn split_bytes<'a>(text: &'a [u8], separator: u8) -> (parts: Vec<&'a [u8]>)
    ensures
        parts_view(parts@) == split(text@, separator),
{
    let mut parts: Vec<&[u8]> = Vec::new();
    let mut start: usize = 0;
    let mut i: usize = 0;
    assert(text@.subrange(0, 0) =~= Seq::<u8>::empty());
    while i < text.len()
        invariant
            start <= i <= text.len(),
            split(text@.take(i as int), separator) == parts_view(parts@).push(
                text@.subrange(start as int, i as int),
            ),
        decreases text.len() - i,
    {
        let ghost current = text@.subrange(start as int, i as int);
        assert(text@.take(i + 1).drop_last() =~= text@.take(i as int));
        if text[i] == separator {
            parts.push(slice_subrange(text, start, i));
            start = i + 1;
            assert(text@.subrange(start as int, i + 1) =~= Seq::<u8>::empty());
        } else {
            assert(text@.subrange(start as int, i + 1) =~= current.push(text@[i as int]));
        }
        i += 1;
    }
    assert(text@.take(i as int) =~= text@);
    parts.push(slice_subrange(text, start, text.len()));
    parts
}

/// The text made of the parts of a list with a separator between each two.
pub open spec fn join(parts: Seq<Seq<u8>>, separator: u8) -> Seq<u8>
    decreases parts.len(),
{
    if parts.len() == 0 {
        Seq::empty()
    } else if parts.len() == 1 {
        parts[0]
    } else {
        join(parts.drop_last(), separator).push(separator) + parts.last()
    }
}

/// Whether no part of a list holds the separator.
pub open spec fn separator_free(parts: Seq<Seq<u8>>, separator: u8) -> bool {
    forall|i: int, j: int|
        0 <= i < parts.len() && 0 <= j < parts[i].len() ==> parts[i][j] != separator
}

/// Splitting undoes joining: the parts of a text hold no separator, and
/// joined with it they give the text back.
pub proof fn lemma_join_of_split(text: Seq<u8>, separator: u8)
    ensures
        split(text, separator).len() >= 1,
        separator_free(split(text, separator), separator),
        join(split(text, separator), separator) == text,
    decreases text.len(),
{
    if text.len() > 0 {
        let before = split(text.drop_last(), separator);
        lemma_join_of_split(text.drop_last(), separator);
        let parts = split(text, separator);
        if text.last() == separator {
            assert(parts.drop_last() =~= before);
        } else {
            if before.len() > 1 {
                assert(parts.drop_last() =~= before.drop_last());
                assert(join(parts, separator) =~= join(before, separator).push(text.last()));
            }
        }
    }
}

/// Joining undoes splitting: a text made by joining parts that hold no
/// separator splits into those parts and no others.
pub proof fn lemma_split_of_join(parts: Seq<Seq<u8>>, separator: u8)
    requires
        parts.len() >= 1,
        separator_free(parts, separator),
    ensures
        split(join(parts, separator), separator) == parts,
    decreases parts.len(), parts.last().len(),
{
    let text = join(parts, separator);
    let last = parts.last();
    if last.len() == 0 {
        assert(last =~= Seq::<u8>::empty());
        if parts.len() > 1 {
            lemma_split_of_join(parts.drop_last(), separator);
            assert(text.drop_last() =~= join(parts.drop_last(), separator));
        }
    } else {
        let shorter = parts.update(parts.len() - 1, last.drop_last());
        assert(separator_free(shorter, separator));
        lemma_split_of_join(shorter, separator);
        if parts.len() > 1 {
            assert(shorter.drop_last() =~= parts.drop_last());
        }
        assert(text.drop_last() =~= join(shorter, separator));
        assert(last.drop_last().push(last.last()) =~= last);
    }
}

} // verus!
