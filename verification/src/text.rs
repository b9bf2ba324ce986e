//! Text preprocessing: the character classes the cursor model depends on,
//! splitting a document into lines, and the normalization applied to raw
//! source text before a run (restricting to a single-byte charset and
//! expanding tabs).

use encoding::all::ISO_8859_1;
use encoding::DecoderTrap;
use encoding::EncoderTrap;
use encoding::Encoding;
use vstd::prelude::*;
use vstd::string::StrSliceExecFns;

verus! {

/// The Unicode `White_Space` code points, the class `str::trim_start` trims.
pub open spec fn is_space(c: char) -> bool {
    let u = c as u32;
    (0x09 <= u && u <= 0x0D) || u == 0x20 || u == 0x85 || u == 0xA0 || u == 0x1680 || (0x2000 <= u
        && u <= 0x200A) || u == 0x2028 || u == 0x2029 || u == 0x202F || u == 0x205F || u == 0x3000
}

/// Executable mirror of `is_space`.
pub fn is_space_char(c: char) -> (r: bool)
    ensures
        r == is_space(c),
{
    let u = c as u32;
    (0x09 <= u && u <= 0x0D) || u == 0x20 || u == 0x85 || u == 0xA0 || u == 0x1680 || (0x2000 <= u
        && u <= 0x200A) || u == 0x2028 || u == 0x2029 || u == 0x202F || u == 0x205F || u == 0x3000
}

/// Index of the first character that is not whitespace; the length if all of
/// the text is whitespace.
pub open spec fn first_non_space(s: Seq<char>) -> int
    decreases s.len(),
{
    if s.len() == 0 {
        0
    } else if !is_space(s[0]) {
        0
    } else {
        1 + first_non_space(s.drop_first())
    }
}

/// `first_non_space` is pinned down by scanning: if everything before `i` is
/// whitespace and `i` is the end or a non-whitespace character, then `i` is it.
pub proof fn lemma_first_non_space_at(s: Seq<char>, i: int)
    requires
        0 <= i <= s.len(),
        forall|j: int| 0 <= j < i ==> is_space(s[j]),
        i < s.len() ==> !is_space(s[i]),
    ensures
        first_non_space(s) == i,
    decreases s.len(),
{
    if s.len() == 0 {
    } else if i == 0 {
    } else {
        assert(is_space(s[0]));
        lemma_first_non_space_at(s.drop_first(), i - 1);
    }
}

/// The segments of `s` delimited by newline characters, in document order.
/// Splitting always yields at least one segment; the empty text yields one
/// empty segment.
pub open spec fn split_lines(s: Seq<char>) -> Seq<Seq<char>>
    decreases s.len(),
{
    if s.len() == 0 {
        seq![Seq::<char>::empty()]
    } else if s[0] == '\n' {
        seq![Seq::<char>::empty()] + split_lines(s.drop_first())
    } else {
        let r = split_lines(s.drop_first());
        seq![seq![s[0]] + r[0]] + r.drop_first()
    }
}

/// A prefix without newlines is a single segment.
pub proof fn lemma_split_lines_no_newline(p: Seq<char>)
    requires
        forall|j: int| 0 <= j < p.len() ==> p[j] != '\n',
    ensures
        split_lines(p) == seq![p],
    decreases p.len(),
{
    if p.len() == 0 {
        assert(p =~= Seq::<char>::empty());
        assert(split_lines(p) =~= seq![p]);
    } else {
        lemma_split_lines_no_newline(p.drop_first());
        assert(split_lines(p) =~= seq![seq![p[0]] + p.drop_first()]);
        assert(seq![p[0]] + p.drop_first() =~= p);
    }
}

/// Splitting a text that starts with a newline-free prefix, a newline, and a
/// remainder yields the prefix as the first segment.
pub proof fn lemma_split_lines_step(p: Seq<char>, r: Seq<char>)
    requires
        forall|j: int| 0 <= j < p.len() ==> p[j] != '\n',
    ensures
        split_lines(p + seq!['\n'] + r) == seq![p] + split_lines(r),
    decreases p.len(),
{
    let s = p + seq!['\n'] + r;
    if p.len() == 0 {
        assert(p =~= Seq::<char>::empty());
        assert(s[0] == '\n');
        assert(s.drop_first() =~= r);
        assert(split_lines(s) =~= seq![p] + split_lines(r));
    } else {
        lemma_split_lines_step(p.drop_first(), r);
        assert(s[0] == p[0]);
        assert(s[0] != '\n');
        assert(s.drop_first() =~= p.drop_first() + seq!['\n'] + r);
        let t = split_lines(s.drop_first());
        assert(t == seq![p.drop_first()] + split_lines(r));
        assert(t[0] == p.drop_first());
        assert(seq![s[0]] + t[0] =~= p);
        assert(t.drop_first() =~= split_lines(r));
        assert(split_lines(s) =~= seq![p] + split_lines(r));
    }
}

/// A character the single-byte charset can represent.
pub open spec fn is_latin1(c: char) -> bool {
    c as u32 <= 0xFF
}

/// The characters of `s` that the single-byte charset can represent, in order.
pub open spec fn keep_latin1(s: Seq<char>) -> Seq<char>
    decreases s.len(),
{
    if s.len() == 0 {
        Seq::<char>::empty()
    } else if is_latin1(s[0]) {
        seq![s[0]] + keep_latin1(s.drop_first())
    } else {
        keep_latin1(s.drop_first())
    }
}

/// The bytes the single-byte charset assigns to the representable characters
/// of `s`, in order.
pub open spec fn latin1_bytes(s: Seq<char>) -> Seq<u8> {
    keep_latin1(s).map_values(|c: char| (c as u32) as u8)
}

proof fn lemma_keep_latin1_elts(s: Seq<char>)
    ensures
        forall|i: int| 0 <= i < keep_latin1(s).len() ==> is_latin1(#[trigger] keep_latin1(s)[i]),
    decreases s.len(),
{
    if s.len() > 0 {
        lemma_keep_latin1_elts(s.drop_first());
        assert forall|i: int| 0 <= i < keep_latin1(s).len() implies is_latin1(
            #[trigger] keep_latin1(s)[i],
        ) by {
            if is_latin1(s[0]) {
                if i > 0 {
                    assert(keep_latin1(s)[i] == keep_latin1(s.drop_first())[i - 1]);
                }
            } else {
                assert(keep_latin1(s)[i] == keep_latin1(s.drop_first())[i]);
            }
        }
    }
}

/// Decoding the encoded bytes reproduces exactly the representable characters.
proof fn lemma_latin1_roundtrip(s: Seq<char>)
    ensures
        latin1_bytes(s).map_values(|b: u8| (b as u32) as char) == keep_latin1(s),
{
    lemma_keep_latin1_elts(s);
    assert forall|i: int| 0 <= i < keep_latin1(s).len() implies (((((#[trigger] keep_latin1(
        s,
    )[i]) as u32) as u8) as u32) as char) == keep_latin1(s)[i] by {
        let c = keep_latin1(s)[i];
        assert(is_latin1(c));
        let u = c as u32;
        assert((u as u8) as u32 == u) by (bit_vector)
            requires
                u <= 0xFF,
        ;
        vstd::utf8::char_u32_cast(c, u);
    }
    assert(latin1_bytes(s).map_values(|b: u8| (b as u32) as char) =~= keep_latin1(s));
}

/// Relies on `encoding`'s `ISO_8859_1.encode` with `EncoderTrap::Ignore`: each
/// character with a code point up to `0xFF` becomes the single byte with that
/// value, every other character is skipped, and with this trap encoding never
/// fails.
#[verifier::external_body]
fn latin1_encode(text: &str) -> (r: Vec<u8>)
    ensures
        r@ == latin1_bytes(text@),
{
    ISO_8859_1.encode(text, EncoderTrap::Ignore).unwrap_or_default()
}

/// Relies on `encoding`'s `ISO_8859_1.decode` with `DecoderTrap::Strict`: every
/// byte decodes to the character with the same code point, and for this codec
/// decoding never fails.
#[verifier::external_body]
fn latin1_decode(bytes: &Vec<u8>) -> (r: String)
    ensures
        r@ == bytes@.map_values(|b: u8| (b as u32) as char),
{
    ISO_8859_1.decode(bytes, DecoderTrap::Strict).unwrap_or_default()
}

/// Relies on `String::push`: appends exactly the given character.
#[verifier::external_body]
pub(crate) fn push_char(s: &mut String, c: char)
    ensures
        final(s)@ == old(s)@.push(c),
{
    s.push(c);
}

/// Each tab character replaced by four spaces; all else unchanged.
pub open spec fn expand_tabs(s: Seq<char>) -> Seq<char>
    decreases s.len(),
{
    if s.len() == 0 {
        Seq::<char>::empty()
    } else {
        (if s[0] == '\t' {
            seq![' ', ' ', ' ', ' ']
        } else {
            seq![s[0]]
        }) + expand_tabs(s.drop_first())
    }
}

pub proof fn lemma_expand_tabs_concat(a: Seq<char>, b: Seq<char>)
    ensures
        expand_tabs(a + b) == expand_tabs(a) + expand_tabs(b),
    decreases a.len(),
{
    if a.len() == 0 {
        assert(a + b =~= b);
        assert(expand_tabs(a) + expand_tabs(b) =~= expand_tabs(b));
    } else {
        lemma_expand_tabs_concat(a.drop_first(), b);
        assert((a + b).drop_first() =~= a.drop_first() + b);
        assert((a + b)[0] == a[0]);
        if a[0] == '\t' {
            assert(expand_tabs(a + b) =~= seq![' ', ' ', ' ', ' '] + (expand_tabs(a.drop_first())
                + expand_tabs(b)));
            assert(expand_tabs(a + b) =~= expand_tabs(a) + expand_tabs(b));
        } else {
            assert(expand_tabs(a + b) =~= seq![a[0]] + (expand_tabs(a.drop_first()) + expand_tabs(
                b,
            )));
            assert(expand_tabs(a + b) =~= expand_tabs(a) + expand_tabs(b));
        }
    }
}

/// The normalization applied to raw source text before a run: restrict to the
/// single-byte charset, dropping what it cannot represent, then expand each
/// tab to four spaces.
pub fn filter_text(text: &str) -> (r: String)
    ensures
        r@ == expand_tabs(keep_latin1(text@)),
{
    let bytes = latin1_encode(text);
    let narrowed = latin1_decode(&bytes);
    proof {
        lemma_latin1_roundtrip(text@);
    }
    let n = narrowed.as_str().unicode_len();
    let mut out = String::new();
    let mut i: usize = 0;
    while i < n
        invariant
            i <= n,
            n == narrowed@.len(),
            narrowed@ == keep_latin1(text@),
            out@ == expand_tabs(narrowed@.take(i as int)),
        decreases n - i,
    {
        let c = narrowed.as_str().get_char(i);
        if c == '\t' {
            push_char(&mut out, ' ');
            push_char(&mut out, ' ');
            push_char(&mut out, ' ');
            push_char(&mut out, ' ');
        } else {
            push_char(&mut out, c);
        }
        proof {
            let pre = narrowed@.take(i as int);
            let one = seq![narrowed@[i as int]];
            lemma_expand_tabs_concat(pre, one);
            assert(narrowed@.take(i + 1 as int) =~= pre + one);
            assert(one.drop_first() =~= Seq::<char>::empty());
            assert(expand_tabs(Seq::<char>::empty()) =~= Seq::<char>::empty());
            if c == '\t' {
                assert(expand_tabs(one) =~= seq![' ', ' ', ' ', ' ']);
            } else {
                assert(expand_tabs(one) =~= seq![c]);
            }
            assert(out@ =~= expand_tabs(narrowed@.take(i + 1 as int)));
        }
        i += 1;
    }
    proof {
        assert(narrowed@.take(n as int) =~= narrowed@);
    }
    out
}

/// The views of a sequence of owned strings.
pub open spec fn string_views(v: Seq<String>) -> Seq<Seq<char>> {
    v.map_values(|t: String| t@)
}

/// The newline-delimited segments of `text`, as owned strings in document
/// order.
pub fn split_text(text: &str) -> (r: Vec<String>)
    ensures
        string_views(r@) == split_lines(text@),
        r@.len() >= 1,
{
    let n = text.unicode_len();
    let mut done: Vec<String> = Vec::new();
    let mut cur = String::new();
    let mut i: usize = 0;
    proof {
        assert(cur@ + text@.skip(0) =~= text@);
        assert(string_views(done@) =~= Seq::<Seq<char>>::empty());
    }
    while i < n
        invariant
            i <= n,
            n == text@.len(),
            forall|j: int| 0 <= j < cur@.len() ==> cur@[j] != '\n',
            split_lines(text@) == string_views(done@) + split_lines(cur@ + text@.skip(i as int)),
        decreases n - i,
    {
        let c = text.get_char(i);
        proof {
            assert(text@.skip(i as int) =~= seq![text@[i as int]] + text@.skip(i + 1 as int));
        }
        if c == '\n' {
            proof {
                lemma_split_lines_step(cur@, text@.skip(i + 1 as int));
                assert(cur@ + text@.skip(i as int) =~= cur@ + seq!['\n'] + text@.skip(
                    i + 1 as int,
                ));
            }
            let ghost prev_done = done@;
            let ghost prev_cur = cur@;
            done.push(cur);
            cur = String::new();
            proof {
                assert(string_views(done@) =~= string_views(prev_done) + seq![prev_cur]);
                assert(cur@ + text@.skip(i + 1 as int) =~= text@.skip(i + 1 as int));
                assert((string_views(prev_done) + seq![prev_cur]) + split_lines(
                    text@.skip(i + 1 as int),
                ) =~= string_views(prev_done) + (seq![prev_cur] + split_lines(
                    text@.skip(i + 1 as int),
                )));
                assert(split_lines(text@) == string_views(done@) + split_lines(
                    cur@ + text@.skip(i + 1 as int),
                ));
            }
        } else {
            let ghost prev_cur = cur@;
            push_char(&mut cur, c);
            proof {
                assert(cur@ + text@.skip(i + 1 as int) =~= prev_cur + text@.skip(i as int));
            }
        }
        i += 1;
    }
    proof {
        lemma_split_lines_no_newline(cur@);
        assert(cur@ + text@.skip(n as int) =~= cur@);
    }
    let ghost prev_done = done@;
    let ghost prev_cur = cur@;
    done.push(cur);
    proof {
        assert(string_views(done@) =~= string_views(prev_done) + seq![prev_cur]);
        assert(string_views(done@) =~= split_lines(text@));
    }
    done
}

/// Character-for-character string equality, stated over the views.
pub fn str_eq(a: &str, b: &str) -> (r: bool)
    ensures
        r == (a@ == b@),
{
    let la = a.unicode_len();
    let lb = b.unicode_len();
    if la != lb {
        return false;
    }
    let mut i: usize = 0;
    while i < la
        invariant
            i <= la,
            la == a@.len(),
            lb == b@.len(),
            la == lb,
            forall|j: int| 0 <= j < i ==> a@[j] == b@[j],
        decreases la - i,
    {
        if a.get_char(i) != b.get_char(i) {
            return false;
        }
        i += 1;
    }
    proof {
        assert(a@ =~= b@);
    }
    true
}


} // verus!
