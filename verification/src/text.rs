//! Plain-text helpers shared by the document hub: whitespace classification,
//! string equality, word counting.

use vstd::prelude::*;

verus! {

/// The Unicode `White_Space` code points, the separators recognised by
/// word counting and trimming.
pub open spec fn is_space_char(c: char) -> bool {
    c == ' ' || c == '\t' || c == '\n' || c == '\r'
    || (c as u32) == 0x0B || (c as u32) == 0x0C
    || (c as u32) == 0x85 || (c as u32) == 0xA0
    || (c as u32) == 0x1680
    || (0x2000 <= (c as u32) && (c as u32) <= 0x200A)
    || (c as u32) == 0x2028 || (c as u32) == 0x2029
    || (c as u32) == 0x202F || (c as u32) == 0x205F
    || (c as u32) == 0x3000
}

/// Decides `is_space_char` on one character.
pub fn is_space(c: char) -> (r: bool)
    ensures
        r == is_space_char(c),
{
    let u = c as u32;
    u == 0x20 || u == 0x09 || u == 0x0A || u == 0x0D
        || u == 0x0B || u == 0x0C
        || u == 0x85 || u == 0xA0
        || u == 0x1680
        || (0x2000 <= u && u <= 0x200A)
        || u == 0x2028 || u == 0x2029
        || u == 0x202F || u == 0x205F
        || u == 0x3000
}

/// Character-wise string equality, decided without trusting `str`'s `==`.
pub fn str_eq(a: &str, b: &str) -> (r: bool)
    ensures
        r == (a@ == b@),
{
    let n = a.unicode_len();
    let m = b.unicode_len();
    if n != m {
        return false;
    }
    let mut i: usize = 0;
    while i < n
        invariant
            n == a@.len(),
            n == b@.len(),
            i <= n,
            forall|j: int| 0 <= j < i ==> a@[j] == b@[j],
        decreases n - i,
    {
        if a.get_char(i) != b.get_char(i) {
            return false;
        }
        i = i + 1;
    }
    proof {
        assert(a@ =~= b@);
    }
    true
}

/// Number of words remaining in `s`, where `in_word` says whether the scan
/// stands inside a word begun earlier.
pub open spec fn count_words_from(s: Seq<char>, in_word: bool) -> int
    decreases s.len(),
{
    if s.len() == 0 {
        0
    } else if is_space_char(s[0]) {
        count_words_from(s.skip(1), false)
    } else {
        (if in_word { 0int } else { 1int }) + count_words_from(s.skip(1), true)
    }
}

/// Number of maximal whitespace-delimited tokens in `s`.
pub open spec fn count_words(s: Seq<char>) -> int {
    count_words_from(s, false)
}

proof fn lemma_count_words_from_nonneg(s: Seq<char>, in_word: bool)
    ensures
        0 <= count_words_from(s, in_word) <= s.len(),
    decreases s.len(),
{
    if s.len() > 0 {
        lemma_count_words_from_nonneg(s.skip(1), false);
        lemma_count_words_from_nonneg(s.skip(1), true);
    }
}

/// Counts whitespace-delimited words, as stored with every committed
/// version; a count beyond the field's range saturates.
pub fn word_count(content: &str) -> (n: i32)
    ensures
        n == if count_words(content@) <= i32::MAX {
            count_words(content@)
        } else {
            i32::MAX as int
        },
{
    let len = content.unicode_len();
    let mut i: usize = 0;
    let mut acc: i32 = 0;
    let ghost mut exact: int = 0;
    let mut in_word = false;
    proof {
        assert(content@.skip(0) =~= content@);
    }
    while i < len
        invariant
            len == content@.len(),
            i <= len,
            0 <= exact,
            acc == if exact <= i32::MAX {
                exact
            } else {
                i32::MAX as int
            },
            exact + count_words_from(content@.skip(i as int), in_word) == count_words(content@),
        decreases len - i,
    {
        let c = content.get_char(i);
        proof {
            assert(content@.skip(i as int)[0] == content@[i as int]);
            assert(content@.skip(i as int).skip(1) =~= content@.skip(i as int + 1));
            lemma_count_words_from_nonneg(content@.skip(i as int + 1), true);
            lemma_count_words_from_nonneg(content@.skip(i as int + 1), false);
        }
        if is_space(c) {
            in_word = false;
        } else {
            if !in_word {
                if acc < i32::MAX {
                    acc = acc + 1;
                }
                proof {
                    exact = exact + 1;
                }
            }
            in_word = true;
        }
        i = i + 1;
    }
    proof {
        assert(content@.skip(len as int) =~= Seq::<char>::empty());
    }
    acc
}

// ---- trimming ----

/// Length of the whitespace prefix of `s`.
pub open spec fn leading_spaces(s: Seq<char>) -> int
    decreases s.len(),
{
    if s.len() == 0 {
        0
    } else if is_space_char(s[0]) {
        1 + leading_spaces(s.skip(1))
    } else {
        0
    }
}

/// Length of the whitespace suffix of `s`.
pub open spec fn trailing_spaces(s: Seq<char>) -> int
    decreases s.len(),
{
    if s.len() == 0 {
        0
    } else if is_space_char(s[s.len() - 1]) {
        1 + trailing_spaces(s.take(s.len() - 1))
    } else {
        0
    }
}

/// `s` with its whitespace prefix and suffix removed.
pub open spec fn trim_of(s: Seq<char>) -> Seq<char> {
    if leading_spaces(s) == s.len() {
        Seq::empty()
    } else {
        s.subrange(leading_spaces(s), s.len() - trailing_spaces(s))
    }
}

proof fn lemma_leading_from_scan(s: Seq<char>, lo: int)
    requires
        0 <= lo <= s.len(),
        forall|j: int| 0 <= j < lo ==> is_space_char(s[j]),
        lo < s.len() ==> !is_space_char(s[lo]),
    ensures
        leading_spaces(s) == lo,
    decreases lo,
{
    if lo == 0 {
    } else {
        assert(is_space_char(s[0]));
        assert(forall|j: int| 0 <= j < lo - 1 ==> s.skip(1)[j] == s[j + 1]);
        lemma_leading_from_scan(s.skip(1), lo - 1);
    }
}

proof fn lemma_trailing_from_scan(s: Seq<char>, hi: int)
    requires
        0 <= hi <= s.len(),
        forall|j: int| hi <= j < s.len() ==> is_space_char(s[j]),
        hi > 0 ==> !is_space_char(s[hi - 1]),
    ensures
        trailing_spaces(s) == s.len() - hi,
    decreases s.len(),
{
    if s.len() == 0 {
    } else if is_space_char(s[s.len() - 1]) {
        assert(hi < s.len());
        assert(forall|j: int| 0 <= j < s.len() - 1 ==> s.take(s.len() - 1)[j] == s[j]);
        lemma_trailing_from_scan(s.take(s.len() - 1), hi);
    } else {
        assert(hi == s.len());
    }
}

/// Removes leading and trailing whitespace, as request fields are cleaned
/// before validation.
pub fn trim(s: &str) -> (r: String)
    ensures
        r@ == trim_of(s@),
{
    let n = s.unicode_len();
    let mut lo: usize = 0;
    while lo < n && is_space(s.get_char(lo))
        invariant
            n == s@.len(),
            lo <= n,
            forall|j: int| 0 <= j < lo ==> is_space_char(s@[j]),
        decreases n - lo,
    {
        lo = lo + 1;
    }
    proof {
        lemma_leading_from_scan(s@, lo as int);
    }
    if lo == n {
        return String::new();
    }
    let mut hi: usize = n;
    while hi > lo + 1 && is_space(s.get_char(hi - 1))
        invariant
            n == s@.len(),
            lo < hi <= n,
            !is_space_char(s@[lo as int]),
            forall|j: int| hi <= j < n ==> is_space_char(s@[j]),
        decreases hi,
    {
        hi = hi - 1;
    }
    proof {
        assert(!is_space_char(s@[hi - 1]));
        lemma_trailing_from_scan(s@, hi as int);
    }
    s.substring_char(lo, hi).to_owned()
}

// ---- slugs ----

/// What `str::to_lowercase` returns: a function of the characters alone.
pub uninterp spec fn lower_of(s: Seq<char>) -> Seq<char>;

/// Relies on str::to_lowercase: the Unicode-lowercased text, determined by
/// the input characters alone.
#[verifier::external_body]
pub fn lowercase(s: &str) -> (r: String)
    ensures
        r@ == lower_of(s@),
{
    s.to_lowercase()
}

/// What `char::is_alphanumeric` returns: a fixed classification of the
/// character.
pub uninterp spec fn is_alnum(c: char) -> bool;

/// Relies on char::is_alphanumeric: whether the character is in a Unicode
/// letter or number category.
#[verifier::external_body]
pub fn char_alnum(c: char) -> (r: bool)
    ensures
        r == is_alnum(c),
{
    c.is_alphanumeric()
}

/// Relies on String::push: appends exactly the one character.
#[verifier::external_body]
pub fn push_char(s: &mut String, c: char)
    ensures
        final(s)@ == old(s)@.push(c),
{
    s.push(c)
}

/// Slug text still to be produced from `s`: alphanumeric runs survive,
/// joined by single dashes. `emitted` says whether any character has been
/// produced already, `prev_alnum` whether the one just before `s` was kept.
pub open spec fn slug_from(s: Seq<char>, emitted: bool, prev_alnum: bool) -> Seq<char>
    decreases s.len(),
{
    if s.len() == 0 {
        Seq::empty()
    } else if is_alnum(s[0]) {
        let sep: Seq<char> = if emitted && !prev_alnum {
            seq!['-']
        } else {
            Seq::empty()
        };
        sep + seq![s[0]] + slug_from(s.skip(1), true, true)
    } else {
        slug_from(s.skip(1), emitted, false)
    }
}

/// URL slug of a title: the lowercased title's alphanumeric runs joined by
/// single dashes, with no dash at either end.
pub open spec fn slug_of(title: Seq<char>) -> Seq<char> {
    slug_from(lower_of(title), false, false)
}

/// Derives a document slug from its title.
pub fn slugify(title: &str) -> (r: String)
    ensures
        r@ == slug_of(title@),
{
    let low = lowercase(title);
    let n = low.as_str().unicode_len();
    let mut out = String::new();
    let mut emitted = false;
    let mut prev_alnum = false;
    let mut i: usize = 0;
    proof {
        assert(low@.skip(0) =~= low@);
    }
    while i < n
        invariant
            n == low@.len(),
            i <= n,
            low@ == lower_of(title@),
            out@ + slug_from(low@.skip(i as int), emitted, prev_alnum) == slug_of(title@),
        decreases n - i,
    {
        let c = low.as_str().get_char(i);
        proof {
            assert(low@.skip(i as int)[0] == low@[i as int]);
            assert(low@.skip(i as int).skip(1) =~= low@.skip(i as int + 1));
        }
        let ghost rest = low@.skip(i as int);
        let ghost out0 = out@;
        if char_alnum(c) {
            if emitted && !prev_alnum {
                push_char(&mut out, '-');
                proof {
                    assert(out@ =~= out0 + seq!['-']);
                }
            }
            let ghost out1 = out@;
            push_char(&mut out, c);
            proof {
                let sep: Seq<char> = if emitted && !prev_alnum {
                    seq!['-']
                } else {
                    Seq::<char>::empty()
                };
                assert(out1 =~= out0 + sep);
                assert(out@ =~= out0 + sep + seq![c]);
                assert(slug_from(rest, emitted, prev_alnum) == sep + seq![c] + slug_from(
                    low@.skip(i as int + 1),
                    true,
                    true,
                ));
                assert(out@ + slug_from(low@.skip(i as int + 1), true, true) =~= out0 + slug_from(
                    rest,
                    emitted,
                    prev_alnum,
                ));
            }
            emitted = true;
            prev_alnum = true;
        } else {
            prev_alnum = false;
        }
        i = i + 1;
    }
    proof {
        assert(low@.skip(n as int) =~= Seq::<char>::empty());
        assert(out@ + Seq::<char>::empty() =~= out@);
    }
    out
}

// ---- line splitting ----

/// Views of a sequence of owned strings.
pub open spec fn views_of(v: Seq<String>) -> Seq<Seq<char>> {
    v.map_values(|x: String| x@)
}

/// Lines still to be produced from `s` when the unterminated line `cur` has
/// been gathered so far. A final line without a terminating newline counts;
/// a trailing newline produces no extra empty line.
pub open spec fn lines_from(s: Seq<char>, cur: Seq<char>) -> Seq<Seq<char>>
    decreases s.len(),
{
    if s.len() == 0 {
        if cur.len() == 0 {
            Seq::empty()
        } else {
            seq![cur]
        }
    } else if s[0] == '\n' {
        seq![cur] + lines_from(s.skip(1), Seq::empty())
    } else {
        lines_from(s.skip(1), cur.push(s[0]))
    }
}

/// The newline-separated lines of `s`.
pub open spec fn lines_of(s: Seq<char>) -> Seq<Seq<char>> {
    lines_from(s, Seq::empty())
}

/// Splits text into its lines, the unit the diff engine compares.
pub fn split_lines(s: &str) -> (r: Vec<String>)
    ensures
        views_of(r@) == lines_of(s@),
{
    let n = s.unicode_len();
    let mut out: Vec<String> = Vec::new();
    let mut cur = String::new();
    let mut i: usize = 0;
    proof {
        assert(s@.skip(0) =~= s@);
        assert(views_of(out@) =~= Seq::<Seq<char>>::empty());
    }
    while i < n
        invariant
            n == s@.len(),
            i <= n,
            views_of(out@) + lines_from(s@.skip(i as int), cur@) == lines_of(s@),
        decreases n - i,
    {
        let c = s.get_char(i);
        proof {
            assert(s@.skip(i as int)[0] == s@[i as int]);
            assert(s@.skip(i as int).skip(1) =~= s@.skip(i as int + 1));
        }
        let ghost out0 = out@;
        let ghost cur0 = cur@;
        if c == '\n' {
            out.push(cur);
            cur = String::new();
            proof {
                assert(views_of(out@) =~= views_of(out0) + seq![cur0]);
                assert(views_of(out@) + lines_from(s@.skip(i as int + 1), cur@) =~= views_of(out0)
                    + lines_from(s@.skip(i as int), cur0));
            }
        } else {
            push_char(&mut cur, c);
        }
        i = i + 1;
    }
    proof {
        assert(s@.skip(n as int) =~= Seq::<char>::empty());
    }
    if !cur.as_str().is_empty() {
        let ghost out0 = out@;
        let ghost cur0 = cur@;
        out.push(cur);
        proof {
            assert(views_of(out@) =~= views_of(out0) + seq![cur0]);
        }
    } else {
        proof {
            assert(views_of(out@) + Seq::<Seq<char>>::empty() =~= views_of(out@));
        }
    }
    out
}

// ---- substring search ----

/// `sub` occurs contiguously somewhere in `s`.
pub open spec fn has_substring(s: Seq<char>, sub: Seq<char>) -> bool {
    exists|i: int|
        0 <= i && i + sub.len() <= s.len() && #[trigger] s.subrange(i, i + sub.len()) == sub
}

/// Decides `has_substring` by direct scan.
pub fn contains_str(s: &str, sub: &str) -> (r: bool)
    ensures
        r == has_substring(s@, sub@),
{
    let n = s.unicode_len();
    let m = sub.unicode_len();
    if m > n {
        return false;
    }
    if m == 0 {
        proof {
            let z: int = 0;
            assert(s@.subrange(z, z + sub@.len()) =~= sub@);
        }
        return true;
    }
    let mut i: usize = 0;
    while i <= n - m
        invariant
            n == s@.len(),
            m == sub@.len(),
            0 < m <= n,
            i <= n - m + 1,
            forall|k: int| 0 <= k < i ==> #[trigger] s@.subrange(k, k + m) != sub@,
        decreases n - i,
    {
        let mut j: usize = 0;
        let mut mismatch = false;
        while j < m && !mismatch
            invariant
                n == s@.len(),
                m == sub@.len(),
                0 < m <= n,
                i <= n - m,
                j <= m,
                !mismatch ==> forall|l: int| 0 <= l < j ==> s@[i + l] == sub@[l],
                mismatch ==> s@.subrange(i as int, i + m) != sub@,
            decreases m - j + (if mismatch { 0int } else { 1int }),
        {
            if s.get_char(i + j) != sub.get_char(j) {
                proof {
                    assert(s@.subrange(i as int, i + m)[j as int] == s@[i + j]);
                }
                mismatch = true;
            } else {
                j = j + 1;
            }
        }
        if !mismatch {
            proof {
                assert(s@.subrange(i as int, i + m) =~= sub@);
            }
            return true;
        }
        i = i + 1;
    }
    proof {
        assert forall|k: int| 0 <= k && k + sub@.len() <= s@.len() implies #[trigger] s@.subrange(
            k,
            k + sub@.len(),
        ) != sub@ by {
            assert(k < i);
        }
    }
    false
}

// ---- ASCII case folding ----

/// ASCII-only lowering of one character, the case rule `LIKE`-style search
/// uses.
pub open spec fn ascii_lower_char(c: char) -> char {
    if 65 <= (c as u32) && (c as u32) <= 90 {
        (((c as u32) + 32) as u8) as char
    } else {
        c
    }
}

/// ASCII-only lowering of a text.
pub open spec fn ascii_lower_of(s: Seq<char>) -> Seq<char> {
    s.map_values(|c: char| ascii_lower_char(c))
}

/// Lowers the ASCII letters of `s`, leaving every other character alone.
pub fn ascii_lower(s: &str) -> (r: String)
    ensures
        r@ == ascii_lower_of(s@),
{
    let n = s.unicode_len();
    let mut out = String::new();
    let mut i: usize = 0;
    while i < n
        invariant
            n == s@.len(),
            i <= n,
            out@ =~= s@.take(i as int).map_values(|c: char| ascii_lower_char(c)),
        decreases n - i,
    {
        let c = s.get_char(i);
        let u = c as u32;
        let l: char = if 65 <= u && u <= 90 {
            ((u + 32) as u8) as char
        } else {
            c
        };
        push_char(&mut out, l);
        proof {
            assert(out@ =~= s@.take(i as int + 1).map_values(|c: char| ascii_lower_char(c)));
        }
        i = i + 1;
    }
    proof {
        assert(s@.take(n as int) =~= s@);
    }
    out
}

// ---- decimal rendering ----

/// The ASCII digit for `d`, which must lie in 0..10.
pub open spec fn dec_digit_char(d: int) -> char {
    ((48 + d) as u8) as char
}

/// Decimal numeral of a non-negative integer, most significant digit first.
pub open spec fn dec_str_of(n: int) -> Seq<char>
    decreases n,
{
    if n < 10 {
        seq![dec_digit_char(n)]
    } else {
        dec_str_of(n / 10).push(dec_digit_char(n % 10))
    }
}

/// Renders `n` in decimal.
pub fn u64_to_string(n: u64) -> (r: String)
    ensures
        r@ == dec_str_of(n as int),
    decreases n,
{
    if n < 10 {
        let mut s = String::new();
        push_char(&mut s, ((48 + n) as u8) as char);
        proof {
            assert(s@ =~= seq![dec_digit_char(n as int)]);
        }
        s
    } else {
        let mut s = u64_to_string(n / 10);
        push_char(&mut s, ((48 + (n % 10)) as u8) as char);
        s
    }
}

} // verus!
