//! The preview line shown under a note's title in the sidebar: the start
//! of the note's text, cut after about a hundred bytes or three line
//! breaks, without trailing white space.
use vstd::prelude::*;
use vstd::string::*;

verus! {

/// Bytes after which the preview stops growing.
pub const MAX_SUBTITLE_LEN: usize = 100;

/// Line breaks after which the preview stops growing.
pub const MAX_SUBTITLE_LINE: u32 = 3;

/// Whether `c` has the Unicode `White_Space` property.
pub open spec fn is_white_space(c: char) -> bool {
    let v = c as u32;
    ||| 0x9 <= v <= 0xD
    ||| v == 0x20
    ||| v == 0x85
    ||| v == 0xA0
    ||| v == 0x1680
    ||| 0x2000 <= v <= 0x200A
    ||| v == 0x2028
    ||| v == 0x2029
    ||| v == 0x202F
    ||| v == 0x205F
    ||| v == 0x3000
}

/// The number of bytes that encode `c` in UTF-8.
pub open spec fn utf8_len(c: char) -> nat {
    let v = c as u32;
    if v < 0x80 {
        1
    } else if v < 0x800 {
        2
    } else if v < 0x10000 {
        3
    } else {
        4
    }
}

/// The number of bytes that encode `s` in UTF-8.
pub open spec fn utf8_bytes(s: Seq<char>) -> nat
    decreases s.len(),
{
    if s.len() == 0 {
        0
    } else {
        utf8_bytes(s.drop_last()) + utf8_len(s.last())
    }
}

/// The number of line breaks in `s`.
pub open spec fn newline_count(s: Seq<char>) -> nat
    decreases s.len(),
{
    if s.len() == 0 {
        0
    } else {
        newline_count(s.drop_last()) + if s.last() == '\n' {
            1nat
        } else {
            0nat
        }
    }
}

/// The characters the preview is drawn from: the text, or a single NUL
/// character for an empty text (what a text buffer reports at its end).
pub open spec fn subtitle_source(text: Seq<char>) -> Seq<char> {
    if text.len() == 0 {
        seq!['\0']
    } else {
        text
    }
}

/// Whether the preview stops growing once it holds the first `k`
/// characters of `s`: the text is used up, or it has reached the byte
/// limit, or the characters after the first hold the maximum number of
/// line breaks.
pub open spec fn subtitle_stops(s: Seq<char>, k: int) -> bool {
    ||| k >= s.len()
    ||| utf8_bytes(s.take(k)) >= MAX_SUBTITLE_LEN
    ||| newline_count(s.subrange(1, k)) >= MAX_SUBTITLE_LINE
}

/// The first length, from `k` on, at which the preview stops growing.
pub open spec fn subtitle_cut_from(s: Seq<char>, k: int) -> int
    decreases s.len() - k,
{
    if k >= s.len() || subtitle_stops(s, k) {
        k
    } else {
        subtitle_cut_from(s, k + 1)
    }
}

/// The length of `p` without trailing white space, its first character
/// being always kept.
pub open spec fn trimmed_len(p: Seq<char>) -> int
    decreases p.len(),
{
    if p.len() <= 1 {
        1
    } else if !is_white_space(p.last()) {
        p.len() as int
    } else {
        trimmed_len(p.drop_last())
    }
}

/// The characters the preview grows to before trimming.
pub open spec fn subtitle_prefix(text: Seq<char>) -> Seq<char> {
    let s = subtitle_source(text);
    s.take(subtitle_cut_from(s, 1))
}

/// The preview of a note whose text is `text`.
pub open spec fn note_subtitle(text: Seq<char>) -> Seq<char> {
    let p = subtitle_prefix(text);
    p.take(trimmed_len(p))
}

/// Whether the preview of `text` cannot be cut: only its first character
/// would stay, and that character takes more than one byte.
pub open spec fn subtitle_cut_fails(text: Seq<char>) -> bool {
    let p = subtitle_prefix(text);
    trimmed_len(p) == 1 && utf8_len(p[0]) > 1
}

/// Trimming keeps at least the first character, never more than there is,
/// and ends on a character that is not white space unless only the first
/// one stays.
pub proof fn lemma_trimmed_len(p: Seq<char>)
    requires
        p.len() >= 1,
    ensures
        1 <= trimmed_len(p) <= p.len(),
        trimmed_len(p) > 1 ==> !is_white_space(p[trimmed_len(p) - 1]),
    decreases p.len(),
{
    if p.len() > 1 && is_white_space(p.last()) {
        lemma_trimmed_len(p.drop_last());
        assert(p.drop_last()[trimmed_len(p.drop_last()) - 1] == p[trimmed_len(p) - 1]);
    }
}

proof fn lemma_cut_bounds(s: Seq<char>, k: int)
    requires
        1 <= k <= s.len(),
    ensures
        k <= subtitle_cut_from(s, k) <= s.len(),
    decreases s.len() - k,
{
    if !(k >= s.len() || subtitle_stops(s, k)) {
        lemma_cut_bounds(s, k + 1);
    }
}

/// A note's preview is a non-empty beginning of its text (of the NUL
/// character for an empty text) that does not end in white space unless
/// it is a single character.
pub proof fn lemma_subtitle_is_trimmed_prefix(text: Seq<char>)
    ensures
        1 <= note_subtitle(text).len() <= subtitle_source(text).len(),
        note_subtitle(text) == subtitle_source(text).take(note_subtitle(text).len() as int),
        note_subtitle(text).len() > 1 ==> !is_white_space(note_subtitle(text).last()),
{
    let s = subtitle_source(text);
    lemma_cut_bounds(s, 1);
    let p = subtitle_prefix(text);
    lemma_trimmed_len(p);
    let t = p.take(trimmed_len(p));
    assert(t =~= s.take(t.len() as int));
    if t.len() > 1 {
        assert(t.last() == p[trimmed_len(p) - 1]);
    }
}

/// Whether `c` has the Unicode `White_Space` property.
pub fn char_is_white_space(c: char) -> (ws: bool)
    ensures
        ws == is_white_space(c),
{
    let v = c as u32;
    (0x9 <= v && v <= 0xD) || v == 0x20 || v == 0x85 || v == 0xA0 || v == 0x1680 || (0x2000 <= v
        && v <= 0x200A) || v == 0x2028 || v == 0x2029 || v == 0x202F || v == 0x205F || v == 0x3000
}

/// The number of bytes that encode `c` in UTF-8.
pub fn char_utf8_len(c: char) -> (n: usize)
    ensures
        n == utf8_len(c),
{
    let v = c as u32;
    if v < 0x80 {
        1
    } else if v < 0x800 {
        2
    } else if v < 0x10000 {
        3
    } else {
        4
    }
}

proof fn lemma_cut_from(s: Seq<char>, k: int, i: int)
    requires
        1 <= k <= i,
        forall|j: int| k <= j < i ==> !#[trigger] subtitle_stops(s, j),
        subtitle_stops(s, i),
    ensures
        subtitle_cut_from(s, k) == i,
    decreases i - k,
{
    if k < i {
        assert(!subtitle_stops(s, k));
        lemma_cut_from(s, k + 1, i);
    }
}

/// The preview of a note whose text is `text`. The text must not be one
/// whose preview would be cut inside its first character (see
/// `try_subtitle`).
pub fn subtitle(text: &str) -> (preview: String)
    requires
        !subtitle_cut_fails(text@),
    ensures
        preview@ == note_subtitle(text@),
{
    match try_subtitle(text) {
        Some(preview) => preview,
        None => {
            assert(false);
            String::new()
        },
    }
}

/// The preview of a note whose text is `text`, or `None` for a text whose
/// preview would be cut inside its first character, where the preview
/// cannot be made.
pub fn try_subtitle(text: &str) -> (preview: Option<String>)
    ensures
        preview is None <==> subtitle_cut_fails(text@),
        preview matches Some(p) ==> p@ == note_subtitle(text@),
{
    let ghost s = subtitle_source(text@);
    let len = text.unicode_len();
    if len == 0 {
        let nul = String::from_str("\u{0}");
        proof {
            reveal_strlit("\u{0}");
            assert(subtitle_stops(s, 1));
            lemma_cut_from(s, 1, 1);
            assert(s.take(1) =~= s);
            assert(subtitle_prefix(text@) =~= seq!['\0']);
            assert(seq!['\0'].len() == 1);
            assert(trimmed_len(seq!['\0']) == 1);
            assert(utf8_len('\0') == 1);
        }
        return Some(nul);
    }
    let first = text.get_char(0);
    let mut bytes: usize = char_utf8_len(first);
    let mut lines: u32 = 0;
    let mut kept: usize = 1;
    let mut i: usize = 1;
    proof {
        assert(s.take(1) =~= seq![first]);
        assert(seq![first].drop_last() =~= Seq::<char>::empty());
        assert(utf8_bytes(Seq::<char>::empty()) == 0);
        assert(utf8_bytes(s.take(1)) == utf8_len(first));
        assert(s.subrange(1, 1) =~= Seq::<char>::empty());
    }
    while i < len
        invariant_except_break
            i <= len,
        invariant
            len == text@.len(),
            s == text@,
            1 <= i <= len,
            bytes == utf8_bytes(s.take(i as int)),
            bytes < MAX_SUBTITLE_LEN + 4,
            lines == newline_count(s.subrange(1, i as int)),
            lines <= MAX_SUBTITLE_LINE,
            kept == trimmed_len(s.take(i as int)),
            1 <= kept <= i,
            forall|j: int| 1 <= j < i ==> !#[trigger] subtitle_stops(s, j),
        ensures
            subtitle_stops(s, i as int),
            i <= len,
        decreases len - i,
    {
        if bytes >= MAX_SUBTITLE_LEN || lines >= MAX_SUBTITLE_LINE {
            break;
        }
        let c = text.get_char(i);
        proof {
            let t0 = s.take(i as int);
            let t1 = s.take(i as int + 1);
            assert(t1.drop_last() =~= t0);
            assert(t1.last() == c);
            let n0 = s.subrange(1, i as int);
            let n1 = s.subrange(1, i as int + 1);
            assert(n1.drop_last() =~= n0);
            assert(n1.last() == c);
            assert(!subtitle_stops(s, i as int));
        }
        if c == '\n' {
            lines = lines + 1;
        }
        bytes = bytes + char_utf8_len(c);
        if !char_is_white_space(c) {
            kept = i + 1;
        }
        i = i + 1;
    }
    proof {
        lemma_cut_from(s, 1, i as int);
        assert(subtitle_prefix(text@) == s.take(i as int));
        assert(s.take(i as int).take(kept as int) =~= s.subrange(0, kept as int));
        assert(subtitle_prefix(text@)[0] == first);
    }
    if kept == 1 && char_utf8_len(first) > 1 {
        return None;
    }
    let cut = text.substring_char(0, kept);
    Some(cut.to_owned())
}

} // verus!
