//! Text as a sequence of characters: searching, trimming, splitting, joining and ordering.
//!
//! Every function states its result over `Seq<char>`, the view of `str` and `String`.
use vstd::prelude::*;

verus! {

/// The characters with the Unicode `White_Space` property.
pub open spec fn is_white(c: char) -> bool {
    let p = c as u32;
    ||| 0x9 <= p <= 0xd
    ||| p == 0x20
    ||| p == 0x85
    ||| p == 0xa0
    ||| p == 0x1680
    ||| 0x2000 <= p <= 0x200a
    ||| p == 0x2028
    ||| p == 0x2029
    ||| p == 0x202f
    ||| p == 0x205f
    ||| p == 0x3000
}

/// Whether a character beyond ASCII is alphabetic or numeric in Unicode.
pub uninterp spec fn unicode_alphanumeric(c: char) -> bool;

pub open spec fn is_ascii_alnum(c: char) -> bool {
    ('a' <= c && c <= 'z') || ('A' <= c && c <= 'Z') || ('0' <= c && c <= '9')
}

/// Alphabetic or numeric: the letters and digits of ASCII, and beyond ASCII what Unicode says.
pub open spec fn is_alnum(c: char) -> bool {
    if (c as u32) < 128 {
        is_ascii_alnum(c)
    } else {
        unicode_alphanumeric(c)
    }
}

/// A character that can stand inside an identifier.
pub open spec fn is_ident(c: char) -> bool {
    is_alnum(c) || c == '_'
}

/// `char::is_whitespace` answers for the `White_Space` property, whose code points are listed in
/// `is_white`.
pub assume_specification[ char::is_whitespace ](c: char) -> (b: bool)
    ensures
        b == is_white(c),
;

/// `char::is_alphanumeric` accepts exactly the letters and digits among the ASCII characters;
/// which of the others it accepts is a fixed property of the character.
pub assume_specification[ char::is_alphanumeric ](c: char) -> (b: bool)
    ensures
        b == is_alnum(c),
        (c as u32) >= 128 ==> b == unicode_alphanumeric(c),
;

/// `String::push` appends one character.
pub assume_specification[ String::push ](s: &mut String, c: char)
    ensures
        final(s)@ == old(s)@.push(c),
;

pub fn ident_char(c: char) -> (r: bool)
    ensures
        r == is_ident(c),
{
    c.is_alphanumeric() || c == '_'
}

// ── Conversions ─────────────────────────────────────────────────────────────

pub fn chars_of(s: &str) -> (r: Vec<char>)
    ensures
        r@ == s@,
{
    let mut out: Vec<char> = Vec::new();
    for c in it: s.chars()
        invariant
            out@ == it.seq().take(it.index() as int),
            it.seq() == s@,
    {
        out.push(c);
    }
    out
}

/// The characters of `cs` from `from` up to, but not including, `to`.
pub fn slice_text(cs: &[char], from: usize, to: usize) -> (r: String)
    requires
        from <= to <= cs@.len(),
    ensures
        r@ == cs@.subrange(from as int, to as int),
{
    let mut out: String = String::new();
    let mut i: usize = from;
    while i < to
        invariant
            from <= i <= to <= cs@.len(),
            out@ == cs@.subrange(from as int, i as int),
        decreases to - i,
    {
        out.push(cs[i]);
        i += 1;
    }
    out
}

pub fn string_of(cs: &[char]) -> (r: String)
    ensures
        r@ == cs@,
{
    slice_text(cs, 0, cs.len())
}

/// Appends the characters of `cs` from `from` up to, but not including, `to`.
pub fn push_chars(out: &mut Vec<char>, cs: &[char], from: usize, to: usize)
    requires
        from <= to <= cs@.len(),
    ensures
        final(out)@ == old(out)@ + cs@.subrange(from as int, to as int),
{
    let mut i: usize = from;
    while i < to
        invariant
            from <= i <= to <= cs@.len(),
            out@ == old(out)@ + cs@.subrange(from as int, i as int),
        decreases to - i,
    {
        out.push(cs[i]);
        i += 1;
    }
}

pub fn same(a: &str, b: &str) -> (r: bool)
    ensures
        r == (a@ == b@),
{
    let x: &[u8] = a.as_bytes();
    let y: &[u8] = b.as_bytes();
    proof {
        vstd::utf8::encode_utf8_decode_utf8(a@);
        vstd::utf8::encode_utf8_decode_utf8(b@);
    }
    if x.len() != y.len() {
        return false;
    }
    let mut i: usize = 0;
    while i < x.len()
        invariant
            i <= x@.len() == y@.len(),
            x@ == vstd::utf8::encode_utf8(a@),
            y@ == vstd::utf8::encode_utf8(b@),
            forall|k: int| 0 <= k < i ==> x@[k] == y@[k],
        decreases x.len() - i,
    {
        if x[i] != y[i] {
            return false;
        }
        i += 1;
    }
    assert(x@ =~= y@);
    true
}

pub fn same_texts(a: &Vec<String>, b: &Vec<String>) -> (r: bool)
    ensures
        r == (a.deep_view() == b.deep_view()),
{
    if a.len() != b.len() {
        assert(a.deep_view().len() != b.deep_view().len());
        return false;
    }
    let mut i: usize = 0;
    while i < a.len()
        invariant
            i <= a.len() == b.len(),
            forall|k: int| 0 <= k < i ==> a.deep_view()[k] == b.deep_view()[k],
        decreases a.len() - i,
    {
        if !same(a[i].as_str(), b[i].as_str()) {
            assert(a.deep_view()[i as int] != b.deep_view()[i as int]);
            return false;
        }
        i += 1;
    }
    assert(a.deep_view() =~= b.deep_view());
    true
}

/// Whether `key` is one of `items`.
pub fn contains_text(items: &Vec<String>, key: &str) -> (r: bool)
    ensures
        r == items.deep_view().contains(key@),
{
    let mut i: usize = 0;
    while i < items.len()
        invariant
            i <= items.len(),
            forall|k: int| 0 <= k < i ==> items.deep_view()[k] != key@,
        decreases items.len() - i,
    {
        if same(items[i].as_str(), key) {
            assert(items.deep_view()[i as int] == key@);
            return true;
        }
        i += 1;
    }
    false
}

pub proof fn lemma_push_text(v: Vec<String>, w: Vec<String>, s: String)
    requires
        w@ == v@.push(s),
    ensures
        w.deep_view() == v.deep_view().push(s@),
{
    assert(w.deep_view() =~= v.deep_view().push(s@));
}

// ── Lists of texts ──────────────────────────────────────────────────────────

pub fn parts1(a: &str) -> (r: Vec<String>)
    ensures
        r.deep_view() == seq![a@],
{
    let r: Vec<String> = vec![a.to_owned()];
    assert(r.deep_view() =~= seq![a@]);
    r
}

pub fn parts2(a: &str, b: &str) -> (r: Vec<String>)
    ensures
        r.deep_view() == seq![a@, b@],
{
    let r: Vec<String> = vec![a.to_owned(), b.to_owned()];
    assert(r.deep_view() =~= seq![a@, b@]);
    r
}

pub fn parts3(a: &str, b: &str, c: &str) -> (r: Vec<String>)
    ensures
        r.deep_view() == seq![a@, b@, c@],
{
    let r: Vec<String> = vec![a.to_owned(), b.to_owned(), c.to_owned()];
    assert(r.deep_view() =~= seq![a@, b@, c@]);
    r
}

pub fn parts4(a: &str, b: &str, c: &str, d: &str) -> (r: Vec<String>)
    ensures
        r.deep_view() == seq![a@, b@, c@, d@],
{
    let r: Vec<String> = vec![a.to_owned(), b.to_owned(), c.to_owned(), d.to_owned()];
    assert(r.deep_view() =~= seq![a@, b@, c@, d@]);
    r
}

pub fn parts5(a: &str, b: &str, c: &str, d: &str, e: &str) -> (r: Vec<String>)
    ensures
        r.deep_view() == seq![a@, b@, c@, d@, e@],
{
    let r: Vec<String> = vec![a.to_owned(), b.to_owned(), c.to_owned(), d.to_owned(), e.to_owned()];
    assert(r.deep_view() =~= seq![a@, b@, c@, d@, e@]);
    r
}

pub fn parts6(a: &str, b: &str, c: &str, d: &str, e: &str, f: &str) -> (r: Vec<String>)
    ensures
        r.deep_view() == seq![a@, b@, c@, d@, e@, f@],
{
    let r: Vec<String> = vec![a.to_owned(), b.to_owned(), c.to_owned(), d.to_owned(), e.to_owned(), f.to_owned()];
    assert(r.deep_view() =~= seq![a@, b@, c@, d@, e@, f@]);
    r
}

pub fn parts7(a: &str, b: &str, c: &str, d: &str, e: &str, f: &str, g: &str) -> (r: Vec<String>)
    ensures
        r.deep_view() == seq![a@, b@, c@, d@, e@, f@, g@],
{
    let r: Vec<String> = vec![a.to_owned(), b.to_owned(), c.to_owned(), d.to_owned(), e.to_owned(), f.to_owned(), g.to_owned()];
    assert(r.deep_view() =~= seq![a@, b@, c@, d@, e@, f@, g@]);
    r
}

// ── Concatenation ───────────────────────────────────────────────────────────

pub fn cat(a: &str, b: &str) -> (r: String)
    ensures
        r@ == a@ + b@,
{
    a.to_owned().concat(b)
}

pub fn cat3(a: &str, b: &str, c: &str) -> (r: String)
    ensures
        r@ == a@ + b@ + c@,
{
    a.to_owned().concat(b).concat(c)
}

pub fn cat4(a: &str, b: &str, c: &str, d: &str) -> (r: String)
    ensures
        r@ == a@ + b@ + c@ + d@,
{
    a.to_owned().concat(b).concat(c).concat(d)
}

pub fn cat5(a: &str, b: &str, c: &str, d: &str, e: &str) -> (r: String)
    ensures
        r@ == a@ + b@ + c@ + d@ + e@,
{
    a.to_owned().concat(b).concat(c).concat(d).concat(e)
}

pub fn cat6(a: &str, b: &str, c: &str, d: &str, e: &str, f: &str) -> (r: String)
    ensures
        r@ == a@ + b@ + c@ + d@ + e@ + f@,
{
    a.to_owned().concat(b).concat(c).concat(d).concat(e).concat(f)
}

pub open spec fn joined(parts: Seq<Seq<char>>, sep: Seq<char>) -> Seq<char>
    decreases parts.len(),
{
    if parts.len() == 0 {
        Seq::empty()
    } else if parts.len() == 1 {
        parts[0]
    } else {
        joined(parts.drop_last(), sep) + sep + parts.last()
    }
}

pub fn join(parts: &Vec<String>, sep: &str) -> (r: String)
    ensures
        r@ == joined(parts.deep_view(), sep@),
{
    let mut out: String = String::new();
    let mut i: usize = 0;
    while i < parts.len()
        invariant
            i <= parts.len(),
            out@ == joined(parts.deep_view().take(i as int), sep@),
        decreases parts.len() - i,
    {
        proof {
            let t = parts.deep_view().take(i + 1);
            assert(t.drop_last() =~= parts.deep_view().take(i as int));
            assert(t.last() == parts@[i as int]@);
            assert(Seq::<char>::empty() + parts@[i as int]@ =~= parts@[i as int]@);
        }
        if i > 0 {
            out.append(sep);
        }
        out.append(parts[i].as_str());
        i += 1;
    }
    assert(parts.deep_view().take(parts.len() as int) =~= parts.deep_view());
    out
}

// ── Numbers ─────────────────────────────────────────────────────────────────

pub open spec fn digit(d: int) -> char {
    if d <= 0 {
        '0'
    } else if d == 1 {
        '1'
    } else if d == 2 {
        '2'
    } else if d == 3 {
        '3'
    } else if d == 4 {
        '4'
    } else if d == 5 {
        '5'
    } else if d == 6 {
        '6'
    } else if d == 7 {
        '7'
    } else if d == 8 {
        '8'
    } else {
        '9'
    }
}

/// A number in decimal, without leading zeros.
pub open spec fn decimal_of(n: nat) -> Seq<char>
    decreases n,
{
    if n < 10 {
        seq![digit(n as int)]
    } else {
        decimal_of(n / 10).push(digit((n % 10) as int))
    }
}

fn digit_char(d: u64) -> (c: char)
    requires
        d < 10,
    ensures
        c == digit(d as int),
{
    match d {
        0 => '0',
        1 => '1',
        2 => '2',
        3 => '3',
        4 => '4',
        5 => '5',
        6 => '6',
        7 => '7',
        8 => '8',
        _ => '9',
    }
}

pub fn decimal(n: u64) -> (r: String)
    ensures
        r@ == decimal_of(n as nat),
    decreases n,
{
    if n < 10 {
        let mut out: String = String::new();
        out.push(digit_char(n));
        assert(out@ =~= decimal_of(n as nat));
        out
    } else {
        let mut out: String = decimal(n / 10);
        out.push(digit_char(n % 10));
        out
    }
}

// ── Searching ───────────────────────────────────────────────────────────────

/// Whether `p` stands in `s` at position `i`.
pub open spec fn occurs_at(s: Seq<char>, p: Seq<char>, i: int) -> bool {
    0 <= i && i + p.len() <= s.len() && s.subrange(i, i + p.len()) == p
}

pub open spec fn starts(s: Seq<char>, p: Seq<char>) -> bool {
    occurs_at(s, p, 0)
}

pub open spec fn ends(s: Seq<char>, p: Seq<char>) -> bool {
    occurs_at(s, p, s.len() - p.len())
}

/// The first position of `p` in `s` from `i` on.
pub open spec fn find_from(s: Seq<char>, p: Seq<char>, i: int) -> Option<int>
    decreases s.len() + 1 - i,
{
    if i < 0 || i + p.len() > s.len() {
        None
    } else if occurs_at(s, p, i) {
        Some(i)
    } else {
        find_from(s, p, i + 1)
    }
}

pub open spec fn find(s: Seq<char>, p: Seq<char>) -> Option<int> {
    find_from(s, p, 0)
}

pub open spec fn has(s: Seq<char>, p: Seq<char>) -> bool {
    find(s, p) is Some
}

/// What `find_from` finds is the first occurrence, and it finds one where there is one.
pub proof fn lemma_find_from(s: Seq<char>, p: Seq<char>, i: int)
    requires
        0 <= i,
    ensures
        find_from(s, p, i) matches Some(k) ==> i <= k && occurs_at(s, p, k) && (forall|j: int|
            i <= j < k ==> !occurs_at(s, p, j)),
        find_from(s, p, i) is None ==> (forall|j: int| i <= j ==> !occurs_at(s, p, j)),
    decreases s.len() + 1 - i,
{
    if i + p.len() <= s.len() && !occurs_at(s, p, i) {
        lemma_find_from(s, p, i + 1);
    }
}

pub fn occurs(cs: &[char], p: &[char], i: usize) -> (r: bool)
    ensures
        r == occurs_at(cs@, p@, i as int),
{
    if i > cs.len() || p.len() > cs.len() - i {
        return false;
    }
    let mut k: usize = 0;
    while k < p.len()
        invariant
            k <= p.len(),
            i + p.len() <= cs.len(),
            forall|j: int| 0 <= j < k ==> cs@[i + j] == p@[j],
        decreases p.len() - k,
    {
        if cs[i + k] != p[k] {
            assert(cs@.subrange(i as int, i + p@.len())[k as int] != p@[k as int]);
            return false;
        }
        k += 1;
    }
    assert(cs@.subrange(i as int, i + p@.len()) =~= p@);
    true
}

pub fn find_chars(cs: &[char], p: &[char], from: usize) -> (r: Option<usize>)
    ensures
        (match r {
            Some(k) => find_from(cs@, p@, from as int) == Some(k as int),
            None => find_from(cs@, p@, from as int) is None,
        }),
        r matches Some(k) ==> from <= k && k + p.len() <= cs.len(),
{
    let mut i: usize = from;
    proof {
        lemma_find_from(cs@, p@, from as int);
    }
    while i <= cs.len() && p.len() <= cs.len() - i
        invariant
            from <= i,
            i <= cs@.len() + 1 || i == from,
            find_from(cs@, p@, from as int) == find_from(cs@, p@, i as int),
        decreases cs.len() + 1 - i,
    {
        if occurs(cs, p, i) {
            return Some(i);
        }
        if i == cs.len() {
            assert(find_from(cs@, p@, i + 1) is None);
            return None;
        }
        i += 1;
    }
    None
}

pub fn contains(s: &str, p: &str) -> (r: bool)
    ensures
        r == has(s@, p@),
{
    find_chars(&chars_of(s), &chars_of(p), 0).is_some()
}

pub fn starts_with(s: &str, p: &str) -> (r: bool)
    ensures
        r == starts(s@, p@),
{
    occurs(&chars_of(s), &chars_of(p), 0)
}

pub fn ends_with(s: &str, p: &str) -> (r: bool)
    ensures
        r == ends(s@, p@),
{
    let cs: Vec<char> = chars_of(s);
    let pc: Vec<char> = chars_of(p);
    if pc.len() > cs.len() {
        return false;
    }
    occurs(&cs, &pc, cs.len() - pc.len())
}

pub open spec fn without_prefix(s: Seq<char>, p: Seq<char>) -> Option<Seq<char>> {
    if starts(s, p) {
        Some(s.skip(p.len() as int))
    } else {
        None
    }
}

pub fn strip_prefix(s: &str, p: &str) -> (r: Option<String>)
    ensures
        r.deep_view() == without_prefix(s@, p@),
{
    let cs: Vec<char> = chars_of(s);
    let pc: Vec<char> = chars_of(p);
    if occurs(&cs, &pc, 0) {
        let out: String = slice_text(&cs, pc.len(), cs.len());
        assert(out@ =~= s@.skip(p@.len() as int));
        Some(out)
    } else {
        None
    }
}

pub open spec fn without_suffix(s: Seq<char>, p: Seq<char>) -> Option<Seq<char>> {
    if ends(s, p) {
        Some(s.take(s.len() - p.len()))
    } else {
        None
    }
}

pub fn strip_suffix(s: &str, p: &str) -> (r: Option<String>)
    ensures
        r.deep_view() == without_suffix(s@, p@),
{
    let cs: Vec<char> = chars_of(s);
    let pc: Vec<char> = chars_of(p);
    if pc.len() <= cs.len() && occurs(&cs, &pc, cs.len() - pc.len()) {
        let out: String = slice_text(&cs, 0, cs.len() - pc.len());
        assert(out@ =~= s@.take(s@.len() - p@.len()));
        Some(out)
    } else {
        None
    }
}

// ── Trimming ────────────────────────────────────────────────────────────────

pub open spec fn left_trimmed(s: Seq<char>) -> Seq<char>
    decreases s.len(),
{
    if s.len() > 0 && is_white(s[0]) {
        left_trimmed(s.skip(1))
    } else {
        s
    }
}

pub open spec fn right_trimmed(s: Seq<char>) -> Seq<char>
    decreases s.len(),
{
    if s.len() > 0 && is_white(s.last()) {
        right_trimmed(s.drop_last())
    } else {
        s
    }
}

pub open spec fn trimmed(s: Seq<char>) -> Seq<char> {
    right_trimmed(left_trimmed(s))
}

pub fn trim_start_at(cs: &[char]) -> (i: usize)
    ensures
        i <= cs@.len(),
        cs@.skip(i as int) == left_trimmed(cs@),
{
    let mut i: usize = 0;
    assert(cs@.skip(0) =~= cs@);
    while i < cs.len() && cs[i].is_whitespace()
        invariant
            i <= cs@.len(),
            left_trimmed(cs@) == left_trimmed(cs@.skip(i as int)),
        decreases cs.len() - i,
    {
        assert(cs@.skip(i as int).skip(1) =~= cs@.skip(i + 1));
        i += 1;
    }
    i
}

pub fn trim_start(s: &str) -> (r: String)
    ensures
        r@ == left_trimmed(s@),
{
    let cs: Vec<char> = chars_of(s);
    let i: usize = trim_start_at(&cs);
    let out: String = slice_text(&cs, i, cs.len());
    assert(out@ =~= cs@.skip(i as int));
    out
}

pub fn trim_end(s: &str) -> (r: String)
    ensures
        r@ == right_trimmed(s@),
{
    let cs: Vec<char> = chars_of(s);
    let mut i: usize = cs.len();
    assert(cs@.take(cs@.len() as int) =~= cs@);
    while i > 0 && cs[i - 1].is_whitespace()
        invariant
            i <= cs@.len(),
            right_trimmed(cs@) == right_trimmed(cs@.take(i as int)),
        decreases i,
    {
        assert(cs@.take(i as int).drop_last() =~= cs@.take(i - 1));
        i -= 1;
    }
    let out: String = slice_text(&cs, 0, i);
    assert(out@ =~= cs@.take(i as int));
    out
}

pub fn trim(s: &str) -> (r: String)
    ensures
        r@ == trimmed(s@),
{
    trim_end(trim_start(s).as_str())
}

/// The text without its white space.
pub open spec fn without_white(s: Seq<char>) -> Seq<char> {
    s.filter(|c: char| !is_white(c))
}

pub fn drop_whitespace(s: &str) -> (r: String)
    ensures
        r@ == without_white(s@),
{
    let cs: Vec<char> = chars_of(s);
    let mut out: String = String::new();
    let mut i: usize = 0;
    let ghost keep = |c: char| !is_white(c);
    proof {
        reveal(Seq::filter);
    }
    while i < cs.len()
        invariant
            i <= cs@.len(),
            keep == (|c: char| !is_white(c)),
            out@ == cs@.take(i as int).filter(keep),
        decreases cs.len() - i,
    {
        proof {
            reveal(Seq::filter);
            assert(cs@.take(i + 1).drop_last() =~= cs@.take(i as int));
        }
        if !cs[i].is_whitespace() {
            out.push(cs[i]);
        }
        i += 1;
    }
    assert(cs@.take(cs@.len() as int) =~= cs@);
    out
}

// ── Splitting ───────────────────────────────────────────────────────────────

/// The parts of `s` between the occurrences of `p`, from left to right.
pub open spec fn split_on(s: Seq<char>, p: Seq<char>) -> Seq<Seq<char>>
    decreases s.len(),
{
    match find(s, p) {
        Some(i) => if p.len() > 0 && 0 <= i && i + p.len() <= s.len() {
            seq![s.take(i)] + split_on(s.skip(i + p.len()), p)
        } else {
            seq![s]
        },
        None => seq![s],
    }
}

proof fn lemma_find_shift(s: Seq<char>, p: Seq<char>, k: int, i: int)
    requires
        0 <= k <= s.len(),
        0 <= i,
    ensures
        find_from(s, p, k + i) is Some <==> find_from(s.skip(k), p, i) is Some,
        find_from(s, p, k + i) is Some ==> find_from(s, p, k + i)->0 == find_from(s.skip(k), p, i)->0
            + k,
    decreases s.len() + 1 - k - i,
{
    let t = s.skip(k);
    if i + p.len() <= t.len() {
        assert(t.subrange(i, i + p.len()) =~= s.subrange(k + i, k + i + p.len()));
        if !occurs_at(t, p, i) {
            lemma_find_shift(s, p, k, i + 1);
        }
    }
}

pub fn split(s: &str, p: &str) -> (r: Vec<String>)
    requires
        p@.len() > 0,
    ensures
        r.deep_view() == split_on(s@, p@),
        r@.len() > 0,
{
    let cs: Vec<char> = chars_of(s);
    let pc: Vec<char> = chars_of(p);
    let mut out: Vec<String> = Vec::new();
    let mut start: usize = 0;
    assert(cs@.skip(0) =~= cs@);
    assert(out.deep_view() + split_on(cs@.skip(0), pc@) =~= split_on(cs@, pc@));
    loop
        invariant_except_break
            start <= cs@.len(),
            pc@.len() > 0,
            out.deep_view() + split_on(cs@.skip(start as int), pc@) == split_on(cs@, pc@),
        ensures
            out.deep_view() == split_on(cs@, pc@),
            out@.len() > 0,
        decreases cs.len() - start,
    {
        let ghost rest = cs@.skip(start as int);
        let ghost before = out;
        proof {
            lemma_find_shift(cs@, pc@, start as int, 0);
            lemma_find_from(rest, pc@, 0);
        }
        match find_chars(&cs, &pc, start) {
            Some(k) => {
                let part: String = slice_text(&cs, start, k);
                assert(part@ =~= rest.take(k - start));
                out.push(part);
                proof {
                    lemma_push_text(before, out, part);
                    assert(rest.skip(k - start + pc@.len()) =~= cs@.skip(k + pc@.len()));
                    assert(out.deep_view() + split_on(cs@.skip(k + pc@.len()), pc@)
                        =~= before.deep_view() + split_on(rest, pc@));
                }
                start = k + pc.len();
            },
            None => {
                let part: String = slice_text(&cs, start, cs.len());
                assert(part@ =~= rest);
                out.push(part);
                proof {
                    lemma_push_text(before, out, part);
                    assert(out.deep_view() =~= before.deep_view() + split_on(rest, pc@));
                }
                break;
            },
        }
    }
    out
}

/// What stands before and behind the first occurrence of `p`.
pub open spec fn split_first(s: Seq<char>, p: Seq<char>) -> Option<(Seq<char>, Seq<char>)> {
    match find(s, p) {
        Some(i) => Some((s.take(i), s.skip(i + p.len()))),
        None => None,
    }
}

pub fn split_once(s: &str, p: &str) -> (r: Option<(String, String)>)
    ensures
        r.deep_view() == split_first(s@, p@),
{
    let cs: Vec<char> = chars_of(s);
    let pc: Vec<char> = chars_of(p);
    match find_chars(&cs, &pc, 0) {
        Some(k) => {
            let a: String = slice_text(&cs, 0, k);
            let b: String = slice_text(&cs, k + pc.len(), cs.len());
            assert(a@ =~= s@.take(k as int));
            assert(b@ =~= s@.skip(k + p@.len()));
            Some((a, b))
        },
        None => None,
    }
}

/// The part of `s` in front of the first `p`; all of `s` where there is none.
pub open spec fn before_first(s: Seq<char>, p: Seq<char>) -> Seq<char> {
    match find(s, p) {
        Some(i) => s.take(i),
        None => s,
    }
}

pub fn before(s: &str, p: &str) -> (r: String)
    ensures
        r@ == before_first(s@, p@),
{
    match split_once(s, p) {
        Some((a, _)) => a,
        None => s.to_owned(),
    }
}

/// The part of `s` behind its last `p`; all of `s` where there is none.
pub open spec fn after_last(s: Seq<char>, p: Seq<char>) -> Seq<char> {
    last_from(s, p, s.len() - p.len())
}

/// The part of `s` behind the last `p` that starts at `i` or before.
pub open spec fn last_from(s: Seq<char>, p: Seq<char>, i: int) -> Seq<char>
    decreases i + 1,
{
    if i < 0 {
        s
    } else if occurs_at(s, p, i) {
        s.skip(i + p.len())
    } else {
        last_from(s, p, i - 1)
    }
}

pub fn after(s: &str, p: &str) -> (r: String)
    ensures
        r@ == after_last(s@, p@),
{
    let cs: Vec<char> = chars_of(s);
    let pc: Vec<char> = chars_of(p);
    if pc.len() > cs.len() {
        return s.to_owned();
    }
    let mut i: usize = cs.len() - pc.len();
    loop
        invariant
            i + pc.len() <= cs.len(),
            cs@ == s@,
            pc@ == p@,
            last_from(cs@, pc@, cs@.len() - pc@.len()) == last_from(cs@, pc@, i as int),
        decreases i,
    {
        if occurs(&cs, &pc, i) {
            let out: String = slice_text(&cs, i + pc.len(), cs.len());
            assert(out@ =~= s@.skip(i + p@.len()));
            return out;
        }
        if i == 0 {
            assert(last_from(cs@, pc@, -1) == cs@);
            return s.to_owned();
        }
        i -= 1;
    }
}

// ── Lines and words ─────────────────────────────────────────────────────────

/// A line without the carriage return in front of its line feed.
pub open spec fn without_cr(s: Seq<char>) -> Seq<char> {
    if s.len() > 0 && s.last() == '\r' {
        s.drop_last()
    } else {
        s
    }
}

/// The lines of parts that were separated by line feeds: the last part is a line only where it is
/// not empty, and keeps a carriage return at its end.
pub open spec fn lines_of_parts(parts: Seq<Seq<char>>) -> Seq<Seq<char>> {
    let closed = parts.drop_last().map_values(|p: Seq<char>| without_cr(p));
    if parts.last().len() == 0 {
        closed
    } else {
        closed.push(parts.last())
    }
}

/// The lines of a text. A line feed at the end opens no further line.
pub open spec fn lines_of(s: Seq<char>) -> Seq<Seq<char>> {
    lines_of_parts(split_on(s, seq!['\n']))
}

pub fn strip_cr(s: &str) -> (r: String)
    ensures
        r@ == without_cr(s@),
{
    let cs: Vec<char> = chars_of(s);
    if cs.len() > 0 && cs[cs.len() - 1] == '\r' {
        let r: String = slice_text(&cs, 0, cs.len() - 1);
        assert(r@ =~= s@.drop_last());
        r
    } else {
        s.to_owned()
    }
}

pub fn lines(s: &str) -> (r: Vec<String>)
    ensures
        r.deep_view() == lines_of(s@),
{
    proof {
        reveal_strlit("\n");
        assert("\n"@ =~= seq!['\n']);
    }
    let parts: Vec<String> = split(s, "\n");
    let ghost all = parts.deep_view();
    let n: usize = parts.len() - 1;
    let ghost closed = all.drop_last().map_values(|p: Seq<char>| without_cr(p));
    let mut out: Vec<String> = Vec::new();
    let mut i: usize = 0;
    assert(out.deep_view() =~= closed.take(0));
    while i < n
        invariant
            i <= n,
            n + 1 == parts.len(),
            all == parts.deep_view(),
            closed == all.drop_last().map_values(|p: Seq<char>| without_cr(p)),
            out.deep_view() == closed.take(i as int),
        decreases n - i,
    {
        let ghost before = out;
        let line: String = strip_cr(parts[i].as_str());
        out.push(line);
        proof {
            lemma_push_text(before, out, line);
            assert(all[i as int] == parts@[i as int]@);
            assert(closed.take(i + 1) =~= closed.take(i as int).push(closed[i as int]));
        }
        i += 1;
    }
    assert(closed.take(n as int) =~= closed);
    assert(all.last() == parts@[n as int]@);
    if !parts[n].as_str().is_empty() {
        let ghost before = out;
        let line: String = parts[n].clone();
        out.push(line);
        proof {
            lemma_push_text(before, out, line);
        }
    }
    out
}

/// The position of the first white space from `i` on, or the end.
pub open spec fn word_end(s: Seq<char>, i: int) -> int
    decreases s.len() - i,
{
    if i < 0 || i >= s.len() {
        s.len() as int
    } else if is_white(s[i]) {
        i
    } else {
        word_end(s, i + 1)
    }
}

/// The position of the first character from `i` on that is not white space, or the end.
pub open spec fn word_start(s: Seq<char>, i: int) -> int
    decreases s.len() - i,
{
    if i < 0 || i >= s.len() {
        s.len() as int
    } else if is_white(s[i]) {
        word_start(s, i + 1)
    } else {
        i
    }
}

pub open spec fn words_from(s: Seq<char>, i: int) -> Seq<Seq<char>>
    decreases s.len() - i,
{
    let a = word_start(s, i);
    let b = word_end(s, a);
    if i < 0 || !(i <= a < b <= s.len()) {
        Seq::empty()
    } else {
        seq![s.subrange(a, b)] + words_from(s, b)
    }
}

/// The words of a text: its stretches without white space.
pub open spec fn words_of(s: Seq<char>) -> Seq<Seq<char>> {
    words_from(s, 0)
}

fn find_word_start(cs: &[char], from: usize) -> (r: usize)
    requires
        from <= cs@.len(),
    ensures
        r == word_start(cs@, from as int),
        from <= r <= cs@.len(),
        r < cs@.len() ==> !is_white(cs@[r as int]),
{
    let mut i: usize = from;
    while i < cs.len() && cs[i].is_whitespace()
        invariant
            from <= i <= cs@.len(),
            word_start(cs@, from as int) == word_start(cs@, i as int),
        decreases cs.len() - i,
    {
        i += 1;
    }
    i
}

fn find_word_end(cs: &[char], from: usize) -> (r: usize)
    requires
        from <= cs@.len(),
    ensures
        r == word_end(cs@, from as int),
        from <= r <= cs@.len(),
        from < cs@.len() && !is_white(cs@[from as int]) ==> from < r,
{
    let mut i: usize = from;
    while i < cs.len() && !cs[i].is_whitespace()
        invariant
            from <= i <= cs@.len(),
            word_end(cs@, from as int) == word_end(cs@, i as int),
        decreases cs.len() - i,
    {
        i += 1;
    }
    i
}

pub fn words(s: &str) -> (r: Vec<String>)
    ensures
        r.deep_view() == words_of(s@),
{
    let cs: Vec<char> = chars_of(s);
    let mut out: Vec<String> = Vec::new();
    let mut i: usize = 0;
    assert(out.deep_view() + words_from(cs@, 0) =~= words_of(s@));
    loop
        invariant
            i <= cs@.len(),
            cs@ == s@,
            out.deep_view() + words_from(cs@, i as int) == words_of(s@),
        decreases cs.len() - i,
    {
        let a: usize = find_word_start(&cs, i);
        if a == cs.len() {
            assert(words_from(cs@, i as int) =~= Seq::empty());
            assert(out.deep_view() + words_from(cs@, i as int) =~= out.deep_view());
            return out;
        }
        let b: usize = find_word_end(&cs, a);
        let ghost before = out;
        let word: String = slice_text(&cs, a, b);
        out.push(word);
        proof {
            lemma_push_text(before, out, word);
            assert(out.deep_view() + words_from(cs@, b as int) =~= before.deep_view()
                + words_from(cs@, i as int));
        }
        i = b;
    }
}

/// The words of a text, one space between each.
pub open spec fn collapsed(s: Seq<char>) -> Seq<char> {
    joined(words_of(s), seq![' '])
}

pub fn collapse_whitespace(s: &str) -> (r: String)
    ensures
        r@ == collapsed(s@),
{
    proof {
        reveal_strlit(" ");
        assert(" "@ =~= seq![' ']);
    }
    join(&words(s), " ")
}

// ── Characters ──────────────────────────────────────────────────────────────

pub open spec fn replaced(s: Seq<char>, from: char, to: char) -> Seq<char> {
    s.map_values(
        |c: char|
            if c == from {
                to
            } else {
                c
            },
    )
}

pub fn replace_char(s: &str, from: char, to: char) -> (r: String)
    ensures
        r@ == replaced(s@, from, to),
{
    let cs: Vec<char> = chars_of(s);
    let mut out: String = String::new();
    let ghost all = replaced(s@, from, to);
    let mut i: usize = 0;
    while i < cs.len()
        invariant
            i <= cs@.len(),
            cs@ == s@,
            all == replaced(s@, from, to),
            out@ == all.take(i as int),
        decreases cs.len() - i,
    {
        out.push(
            if cs[i] == from {
                to
            } else {
                cs[i]
            },
        );
        assert(all.take(i + 1) =~= all.take(i as int).push(all[i as int]));
        i += 1;
    }
    assert(all.take(cs.len() as int) =~= all);
    out
}

/// The lower-case form of an ASCII letter; every other character as it is.
pub open spec fn lower(c: char) -> char {
    if 'A' <= c && c <= 'Z' {
        ((c as u8 + 32) as u8) as char
    } else {
        c
    }
}

pub open spec fn lowered(s: Seq<char>) -> Seq<char> {
    s.map_values(|c: char| lower(c))
}

pub fn lower_char(c: char) -> (r: char)
    ensures
        r == lower(c),
{
    if 'A' <= c && c <= 'Z' {
        (c as u8 + 32) as char
    } else {
        c
    }
}

pub fn lower_ascii(s: &str) -> (r: String)
    ensures
        r@ == lowered(s@),
{
    let cs: Vec<char> = chars_of(s);
    let mut out: String = String::new();
    let ghost all = lowered(s@);
    let mut i: usize = 0;
    while i < cs.len()
        invariant
            i <= cs@.len(),
            cs@ == s@,
            all == lowered(s@),
            out@ == all.take(i as int),
        decreases cs.len() - i,
    {
        out.push(lower_char(cs[i]));
        assert(all.take(i + 1) =~= all.take(i as int).push(all[i as int]));
        i += 1;
    }
    assert(all.take(cs.len() as int) =~= all);
    out
}

pub open spec fn is_digit(c: char) -> bool {
    '0' <= c && c <= '9'
}

/// Not empty, and digits only.
pub open spec fn all_digits(s: Seq<char>) -> bool {
    s.len() > 0 && forall|i: int| 0 <= i < s.len() ==> is_digit(#[trigger] s[i])
}

pub open spec fn digit_value(c: char) -> int {
    c as u32 - '0' as u32
}

/// The number that a sequence of digits writes.
pub open spec fn number_of(s: Seq<char>) -> int
    decreases s.len(),
{
    if s.len() == 0 {
        0
    } else {
        number_of(s.drop_last()) * 10 + digit_value(s.last())
    }
}

/// The number that a text of digits writes, where it fits 32 bits.
pub open spec fn number_u32(s: Seq<char>) -> Option<u32> {
    if all_digits(s) && number_of(s) <= u32::MAX {
        Some(number_of(s) as u32)
    } else {
        None
    }
}

proof fn lemma_number_grows(s: Seq<char>, n: int)
    requires
        all_digits(s),
        0 <= n <= s.len(),
    ensures
        0 <= number_of(s.take(n)) <= number_of(s),
    decreases s.len() - n,
{
    if n < s.len() {
        lemma_number_grows(s, n + 1);
        assert(s.take(n + 1).drop_last() =~= s.take(n));
        assert(is_digit(s[n]));
        lemma_number_nonneg(s, n);
    } else {
        assert(s.take(n) =~= s);
        lemma_number_nonneg(s, n);
    }
}

proof fn lemma_number_nonneg(s: Seq<char>, n: int)
    requires
        all_digits(s),
        0 <= n <= s.len(),
    ensures
        0 <= number_of(s.take(n)),
    decreases n,
{
    if n > 0 {
        lemma_number_nonneg(s, n - 1);
        assert(s.take(n).drop_last() =~= s.take(n - 1));
        assert(is_digit(s[n - 1]));
    }
}

pub fn parse_u32(s: &str) -> (r: Option<u32>)
    ensures
        r == number_u32(s@),
{
    let cs: Vec<char> = chars_of(s);
    if !digits_only(s) {
        return None;
    }
    let mut n: u64 = 0;
    let mut i: usize = 0;
    while i < cs.len()
        invariant
            i <= cs@.len(),
            cs@ == s@,
            all_digits(cs@),
            n == number_of(cs@.take(i as int)),
            n <= u32::MAX,
        decreases cs.len() - i,
    {
        proof {
            assert(cs@.take(i + 1).drop_last() =~= cs@.take(i as int));
            assert(is_digit(cs@[i as int]));
            lemma_number_grows(cs@, i + 1);
        }
        let d: u64 = (cs[i] as u32 - '0' as u32) as u64;
        n = n * 10 + d;
        if n > u32::MAX as u64 {
            return None;
        }
        i += 1;
    }
    assert(cs@.take(cs.len() as int) =~= cs@);
    Some(n as u32)
}

pub fn digits_only(s: &str) -> (r: bool)
    ensures
        r == all_digits(s@),
{
    let cs: Vec<char> = chars_of(s);
    if cs.len() == 0 {
        return false;
    }
    let mut i: usize = 0;
    while i < cs.len()
        invariant
            i <= cs@.len(),
            cs@ == s@,
            forall|k: int| 0 <= k < i ==> is_digit(#[trigger] cs@[k]),
        decreases cs.len() - i,
    {
        if !('0' <= cs[i] && cs[i] <= '9') {
            assert(!is_digit(cs@[i as int]));
            return false;
        }
        i += 1;
    }
    true
}

/// The text without the `c` that stand at its front.
pub open spec fn without_leading(s: Seq<char>, c: char) -> Seq<char>
    decreases s.len(),
{
    if s.len() > 0 && s[0] == c {
        without_leading(s.skip(1), c)
    } else {
        s
    }
}

pub fn trim_leading(s: &str, c: char) -> (r: String)
    ensures
        r@ == without_leading(s@, c),
{
    let cs: Vec<char> = chars_of(s);
    let mut i: usize = 0;
    assert(cs@.skip(0) =~= cs@);
    while i < cs.len() && cs[i] == c
        invariant
            i <= cs@.len(),
            without_leading(cs@, c) == without_leading(cs@.skip(i as int), c),
        decreases cs.len() - i,
    {
        assert(cs@.skip(i as int).skip(1) =~= cs@.skip(i + 1));
        i += 1;
    }
    let out: String = slice_text(&cs, i, cs.len());
    assert(out@ =~= cs@.skip(i as int));
    out
}

/// The text without the `c` that stand at its end.
pub open spec fn without_trailing(s: Seq<char>, c: char) -> Seq<char>
    decreases s.len(),
{
    if s.len() > 0 && s.last() == c {
        without_trailing(s.drop_last(), c)
    } else {
        s
    }
}

pub fn trim_trailing(s: &str, c: char) -> (r: String)
    ensures
        r@ == without_trailing(s@, c),
{
    let cs: Vec<char> = chars_of(s);
    let mut i: usize = cs.len();
    assert(cs@.take(cs@.len() as int) =~= cs@);
    while i > 0 && cs[i - 1] == c
        invariant
            i <= cs@.len(),
            without_trailing(cs@, c) == without_trailing(cs@.take(i as int), c),
        decreases i,
    {
        assert(cs@.take(i as int).drop_last() =~= cs@.take(i - 1));
        i -= 1;
    }
    let out: String = slice_text(&cs, 0, i);
    assert(out@ =~= cs@.take(i as int));
    out
}

/// At most `max` characters from the front.
pub open spec fn truncated(s: Seq<char>, max: int) -> Seq<char> {
    if s.len() <= max {
        s
    } else {
        s.take(max)
    }
}

pub fn truncate_chars(s: &str, max: usize) -> (r: String)
    ensures
        r@ == truncated(s@, max as int),
{
    let cs: Vec<char> = chars_of(s);
    if cs.len() <= max {
        s.to_owned()
    } else {
        let r: String = slice_text(&cs, 0, max);
        assert(r@ =~= s@.take(max as int));
        r
    }
}

/// Truncation keeps a prefix of at most the given length.
pub proof fn law_truncated(s: Seq<char>, max: int)
    requires
        0 <= max,
    ensures
        truncated(s, max).len() <= max,
        starts(s, truncated(s, max)),
        truncated(truncated(s, max), max) == truncated(s, max),
{
    assert(s.subrange(0, truncated(s, max).len() as int) =~= truncated(s, max));
}

/// What stands before and behind the last occurrence of `p` that starts at `i` or before.
pub open spec fn split_last_from(s: Seq<char>, p: Seq<char>, i: int) -> Option<
    (Seq<char>, Seq<char>),
>
    decreases i + 1,
{
    if i < 0 {
        None
    } else if occurs_at(s, p, i) {
        Some((s.take(i), s.skip(i + p.len())))
    } else {
        split_last_from(s, p, i - 1)
    }
}

pub open spec fn split_last(s: Seq<char>, p: Seq<char>) -> Option<(Seq<char>, Seq<char>)> {
    split_last_from(s, p, s.len() - p.len())
}

pub fn rsplit_once(s: &str, p: &str) -> (r: Option<(String, String)>)
    ensures
        r.deep_view() == split_last(s@, p@),
{
    let cs: Vec<char> = chars_of(s);
    let pc: Vec<char> = chars_of(p);
    if pc.len() > cs.len() {
        return None;
    }
    let mut i: usize = cs.len() - pc.len();
    loop
        invariant
            i + pc.len() <= cs.len(),
            cs@ == s@,
            pc@ == p@,
            split_last(s@, p@) == split_last_from(s@, p@, i as int),
        decreases i,
    {
        if occurs(&cs, &pc, i) {
            let a: String = slice_text(&cs, 0, i);
            let b: String = slice_text(&cs, i + pc.len(), cs.len());
            assert(a@ =~= s@.take(i as int));
            assert(b@ =~= s@.skip(i + p@.len()));
            return Some((a, b));
        }
        if i == 0 {
            assert(split_last_from(s@, p@, -1) is None);
            return None;
        }
        i -= 1;
    }
}

// ── Order ───────────────────────────────────────────────────────────────────

/// The order of texts: by the first character in which they differ; a prefix comes first.
pub open spec fn text_le(a: Seq<char>, b: Seq<char>) -> bool
    decreases a.len(),
{
    if a.len() == 0 {
        true
    } else if b.len() == 0 {
        false
    } else if a[0] == b[0] {
        text_le(a.skip(1), b.skip(1))
    } else {
        a[0] < b[0]
    }
}

pub open spec fn text_lt(a: Seq<char>, b: Seq<char>) -> bool {
    a != b && text_le(a, b)
}

pub proof fn lemma_text_le_refl(a: Seq<char>)
    ensures
        text_le(a, a),
    decreases a.len(),
{
    if a.len() > 0 {
        lemma_text_le_refl(a.skip(1));
    }
}

pub proof fn lemma_text_le_total(a: Seq<char>, b: Seq<char>)
    ensures
        text_le(a, b) || text_le(b, a),
    decreases a.len(),
{
    if a.len() > 0 && b.len() > 0 {
        lemma_text_le_total(a.skip(1), b.skip(1));
    }
}

pub proof fn lemma_text_le_antisym(a: Seq<char>, b: Seq<char>)
    requires
        text_le(a, b),
        text_le(b, a),
    ensures
        a == b,
    decreases a.len(),
{
    if a.len() > 0 && b.len() > 0 {
        lemma_text_le_antisym(a.skip(1), b.skip(1));
        assert(a =~= seq![a[0]] + a.skip(1));
        assert(b =~= seq![b[0]] + b.skip(1));
    } else {
        assert(a =~= b);
    }
}

pub proof fn lemma_text_le_trans(a: Seq<char>, b: Seq<char>, c: Seq<char>)
    requires
        text_le(a, b),
        text_le(b, c),
    ensures
        text_le(a, c),
    decreases a.len(),
{
    if a.len() > 0 && b.len() > 0 && c.len() > 0 {
        if a[0] == b[0] && b[0] == c[0] {
            lemma_text_le_trans(a.skip(1), b.skip(1), c.skip(1));
        }
    }
}

pub fn le(a: &str, b: &str) -> (r: bool)
    ensures
        r == text_le(a@, b@),
{
    let x: Vec<char> = chars_of(a);
    let y: Vec<char> = chars_of(b);
    let mut i: usize = 0;
    assert(x@.skip(0) =~= x@);
    assert(y@.skip(0) =~= y@);
    while i < x.len() && i < y.len() && x[i] == y[i]
        invariant
            i <= x@.len(),
            i <= y@.len(),
            x@ == a@,
            y@ == b@,
            text_le(x@, y@) == text_le(x@.skip(i as int), y@.skip(i as int)),
        decreases x.len() - i,
    {
        assert(x@.skip(i as int).skip(1) =~= x@.skip(i + 1));
        assert(y@.skip(i as int).skip(1) =~= y@.skip(i + 1));
        i += 1;
    }
    if i == x.len() {
        true
    } else if i == y.len() {
        false
    } else {
        x[i] < y[i]
    }
}

pub fn lt(a: &str, b: &str) -> (r: bool)
    ensures
        r == text_lt(a@, b@),
{
    !same(a, b) && le(a, b)
}

/// `s`, which is sorted, with `x` put in behind everything that is no greater.
pub open spec fn insert_text(s: Seq<Seq<char>>, x: Seq<char>) -> Seq<Seq<char>>
    decreases s.len(),
{
    if s.len() == 0 {
        seq![x]
    } else if text_le(s.last(), x) {
        s.push(x)
    } else {
        insert_text(s.drop_last(), x).push(s.last())
    }
}

/// The texts in ascending order.
pub open spec fn sorted_texts(s: Seq<Seq<char>>) -> Seq<Seq<char>>
    decreases s.len(),
{
    if s.len() == 0 {
        s
    } else {
        insert_text(sorted_texts(s.drop_last()), s.last())
    }
}

pub open spec fn ascending(s: Seq<Seq<char>>) -> bool {
    forall|i: int, j: int| 0 <= i < j < s.len() ==> text_le(#[trigger] s[i], #[trigger] s[j])
}

proof fn lemma_insert_text(s: Seq<Seq<char>>, x: Seq<char>)
    requires
        ascending(s),
    ensures
        ascending(insert_text(s, x)),
        insert_text(s, x).to_multiset() == s.to_multiset().insert(x),
        insert_text(s, x).len() == s.len() + 1,
    decreases s.len(),
{
    broadcast use vstd::seq_lib::group_to_multiset_ensures;

    if s.len() == 0 {
        assert(seq![x] =~= s.push(x));
    } else if text_le(s.last(), x) {
        assert forall|i: int| 0 <= i < s.len() implies text_le(#[trigger] s[i], x) by {
            if i < s.len() - 1 {
                lemma_text_le_trans(s[i], s.last(), x);
            }
        }
    } else {
        let rest = s.drop_last();
        lemma_insert_text(rest, x);
        lemma_text_le_total(x, s.last());
        let t = insert_text(rest, x);
        assert(s =~= rest.push(s.last()));
        assert forall|i: int| 0 <= i < t.len() implies text_le(#[trigger] t[i], s.last()) by {
            assert(t.to_multiset().count(t[i]) > 0);
            if t[i] != x {
                assert(rest.to_multiset().count(t[i]) > 0);
                assert(rest.contains(t[i]));
            }
        }
    }
}

/// Sorting gives the same texts, each as often as before, in ascending order.
pub proof fn law_sorted_texts(s: Seq<Seq<char>>)
    ensures
        ascending(sorted_texts(s)),
        sorted_texts(s).to_multiset() == s.to_multiset(),
        sorted_texts(s).len() == s.len(),
    decreases s.len(),
{
    broadcast use vstd::seq_lib::group_to_multiset_ensures;

    if s.len() > 0 {
        law_sorted_texts(s.drop_last());
        lemma_insert_text(sorted_texts(s.drop_last()), s.last());
        assert(s =~= s.drop_last().push(s.last()));
    }
}

fn insert_text_into(out: &mut Vec<String>, x: String)
    ensures
        final(out).deep_view() == insert_text(old(out).deep_view(), x@),
{
    let ghost s = out.deep_view();
    let mut i: usize = out.len();
    assert(s.take(i as int) =~= s);
    assert(s.skip(i as int) =~= Seq::<Seq<char>>::empty());
    assert(insert_text(s.take(i as int), x@) + s.skip(i as int) =~= insert_text(s, x@));
    while i > 0 && !le(out[i - 1].as_str(), x.as_str())
        invariant
            i <= out.len(),
            s == out.deep_view(),
            insert_text(s.take(i as int), x@) + s.skip(i as int) == insert_text(s, x@),
        decreases i,
    {
        proof {
            let t = s.take(i as int);
            assert(t.last() == s[i - 1]);
            assert(t.drop_last() =~= s.take(i - 1));
            assert(insert_text(s.take(i - 1), x@) + s.skip(i - 1) =~= insert_text(t, x@) + s.skip(
                i as int,
            ));
        }
        i -= 1;
    }
    proof {
        let t = s.take(i as int);
        if i > 0 {
            assert(t.last() == s[i - 1]);
        } else {
            assert(t.push(x@) =~= seq![x@]);
        }
        assert(insert_text(t, x@) =~= t.push(x@));
        assert(insert_text(s, x@) =~= s.insert(i as int, x@));
    }
    out.insert(i, x);
    assert(out.deep_view() =~= s.insert(i as int, x@));
}

pub fn sort_texts(v: Vec<String>) -> (r: Vec<String>)
    ensures
        r.deep_view() == sorted_texts(v.deep_view()),
{
    let mut out: Vec<String> = Vec::new();
    let mut i: usize = 0;
    assert(out.deep_view() =~= sorted_texts(v.deep_view().take(0)));
    while i < v.len()
        invariant
            i <= v.len(),
            out.deep_view() == sorted_texts(v.deep_view().take(i as int)),
        decreases v.len() - i,
    {
        insert_text_into(&mut out, v[i].clone());
        proof {
            let t = v.deep_view().take(i + 1);
            assert(t.drop_last() =~= v.deep_view().take(i as int));
            assert(t.last() == v@[i as int]@);
        }
        i += 1;
    }
    assert(v.deep_view().take(v.len() as int) =~= v.deep_view());
    out
}

// ── Bytes ───────────────────────────────────────────────────────────────────

/// The length of a text in bytes.
pub open spec fn byte_len(s: Seq<char>) -> nat {
    vstd::utf8::encode_utf8(s).len()
}

proof fn lemma_encode_concat(a: Seq<char>, b: Seq<char>)
    ensures
        vstd::utf8::encode_utf8(a + b) == vstd::utf8::encode_utf8(a) + vstd::utf8::encode_utf8(b),
    decreases a.len(),
{
    if a.len() == 0 {
        assert(a + b =~= b);
        assert(vstd::utf8::encode_utf8(a) + vstd::utf8::encode_utf8(b)
            =~= vstd::utf8::encode_utf8(b));
    } else {
        lemma_encode_concat(a.drop_first(), b);
        assert((a + b).drop_first() =~= a.drop_first() + b);
        assert((a + b)[0] == a[0]);
        assert(vstd::utf8::encode_utf8(a + b) =~= vstd::utf8::encode_utf8(a)
            + vstd::utf8::encode_utf8(b));
    }
}

/// Lengths in bytes add up.
pub proof fn lemma_byte_len_concat(a: Seq<char>, b: Seq<char>)
    ensures
        byte_len(a + b) == byte_len(a) + byte_len(b),
{
    lemma_encode_concat(a, b);
}

pub fn text_bytes(s: &str) -> (n: usize)
    ensures
        n == byte_len(s@),
{
    s.as_bytes().len()
}

/// The length of a character in bytes.
pub fn bytes_of_char(c: char) -> (n: usize)
    ensures
        n == byte_len(seq![c]),
        1 <= n <= 4,
{
    let u: u32 = c as u32;
    proof {
        assert(seq![c].drop_first() =~= Seq::<char>::empty());
        assert(vstd::utf8::encode_utf8(Seq::<char>::empty()) =~= Seq::<u8>::empty());
        assert(vstd::utf8::encode_utf8(seq![c]) =~= vstd::utf8::encode_scalar(c as u32));
    }
    if u < 0x80 {
        1
    } else if u < 0x800 {
        2
    } else if u < 0x10000 {
        3
    } else {
        4
    }
}

/// The character that begins at a byte; the position behind the last one where the text ends.
pub open spec fn char_at_byte(s: Seq<char>, n: int) -> Option<int>
    decreases s.len(),
{
    if n == 0 {
        Some(0)
    } else if n < 0 || s.len() == 0 {
        None
    } else {
        match char_at_byte(s.drop_first(), n - byte_len(seq![s[0]])) {
            Some(k) => Some(k + 1),
            None => None,
        }
    }
}

/// The bytes of a text from one on up to another, where both stand between characters.
pub open spec fn byte_range(s: Seq<char>, from: int, to: int) -> Option<Seq<char>> {
    match (char_at_byte(s, from), char_at_byte(s, to)) {
        (Some(a), Some(b)) => if a <= b {
            Some(s.subrange(a, b))
        } else {
            None
        },
        _ => None,
    }
}

fn find_char_at_byte(cs: &[char], n: usize) -> (r: Option<usize>)
    ensures
        (match r {
            Some(k) => char_at_byte(cs@, n as int) == Some(k as int) && k <= cs.len(),
            None => char_at_byte(cs@, n as int) is None,
        }),
{
    let mut i: usize = 0;
    let mut left: usize = n;
    assert(cs@.skip(0) =~= cs@);
    while left > 0 && i < cs.len()
        invariant
            i <= cs.len(),
            (match char_at_byte(cs@.skip(i as int), left as int) {
                Some(k) => char_at_byte(cs@, n as int) == Some(k + i),
                None => char_at_byte(cs@, n as int) is None,
            }),
        decreases cs.len() - i,
    {
        let b: usize = bytes_of_char(cs[i]);
        proof {
            assert(cs@.skip(i as int)[0] == cs@[i as int]);
            assert(cs@.skip(i as int).drop_first() =~= cs@.skip(i + 1));
        }
        if b > left {
            assert(char_at_byte(cs@.skip(i + 1), left - b) is None);
            return None;
        }
        left -= b;
        i += 1;
    }
    if left == 0 {
        Some(i)
    } else {
        None
    }
}

pub fn slice_bytes(s: &str, from: usize, to: usize) -> (r: Option<String>)
    ensures
        r.deep_view() == byte_range(s@, from as int, to as int),
{
    let cs: Vec<char> = chars_of(s);
    match (find_char_at_byte(cs.as_slice(), from), find_char_at_byte(cs.as_slice(), to)) {
        (Some(a), Some(b)) => if a <= b {
            Some(slice_text(cs.as_slice(), a, b))
        } else {
            None
        },
        _ => None,
    }
}

proof fn lemma_char_at_byte(s: Seq<char>, k: int)
    requires
        0 <= k <= s.len(),
    ensures
        char_at_byte(s, byte_len(s.take(k)) as int) == Some(k),
    decreases k,
{
    if k == 0 {
        assert(s.take(0) =~= Seq::<char>::empty());
    } else {
        let rest = s.drop_first();
        lemma_char_at_byte(rest, k - 1);
        assert(s.take(k) =~= seq![s[0]] + rest.take(k - 1));
        lemma_byte_len_concat(seq![s[0]], rest.take(k - 1));
        lemma_char_is_some_bytes(s[0]);
    }
}

/// A character takes at least one byte.
proof fn lemma_char_is_some_bytes(c: char)
    ensures
        byte_len(seq![c]) >= 1,
{
    assert(seq![c].drop_first() =~= Seq::<char>::empty());
    assert(vstd::utf8::encode_utf8(Seq::<char>::empty()) =~= Seq::<u8>::empty());
    assert(vstd::utf8::encode_utf8(seq![c]) =~= vstd::utf8::encode_scalar(c as u32));
}

proof fn lemma_inside_char(s: Seq<char>, k: int, b: int)
    requires
        0 <= k < s.len(),
        byte_len(s.take(k)) < b < byte_len(s.take(k + 1)),
    ensures
        char_at_byte(s, b) is None,
    decreases k,
{
    let rest = s.drop_first();
    let first = byte_len(seq![s[0]]) as int;
    assert(s.take(k + 1) =~= seq![s[0]] + rest.take(k));
    lemma_byte_len_concat(seq![s[0]], rest.take(k));
    if k == 0 {
        assert(s.take(0) =~= Seq::<char>::empty());
        assert(rest.take(0) =~= Seq::<char>::empty());
        assert(char_at_byte(rest, b - first) is None);
    } else {
        assert(s.take(k) =~= seq![s[0]] + rest.take(k - 1));
        lemma_byte_len_concat(seq![s[0]], rest.take(k - 1));
        lemma_inside_char(rest, k - 1, b - first);
    }
}

proof fn lemma_beyond_text(s: Seq<char>, b: int)
    requires
        b > byte_len(s),
    ensures
        char_at_byte(s, b) is None,
    decreases s.len(),
{
    if s.len() > 0 {
        let rest = s.drop_first();
        assert(s =~= seq![s[0]] + rest);
        lemma_byte_len_concat(seq![s[0]], rest);
        lemma_beyond_text(rest, b - byte_len(seq![s[0]]));
    }
}

/// A text with an index of the bytes at which its characters begin.
pub struct ByteIndex {
    pub cs: Vec<char>,
    /// The character that begins at each byte, if one does.
    pub at: Vec<Option<usize>>,
}

/// The position as a mathematical number.
pub open spec fn as_position(o: Option<usize>) -> Option<int> {
    match o {
        Some(k) => Some(k as int),
        None => None,
    }
}

impl ByteIndex {
    pub open spec fn valid(self) -> bool {
        &&& self.at@.len() == byte_len(self.cs@) + 1
        &&& forall|b: int|
            0 <= b < self.at@.len() ==> as_position(#[trigger] self.at@[b]) == char_at_byte(
                self.cs@,
                b,
            )
    }

    pub fn of(s: &str) -> (r: ByteIndex)
        ensures
            r.valid(),
            r.cs@ == s@,
    {
        let cs: Vec<char> = chars_of(s);
        let mut at: Vec<Option<usize>> = Vec::new();
        let mut k: usize = 0;
        assert(cs@.take(0) =~= Seq::<char>::empty());
        while k < cs.len()
            invariant
                k <= cs.len(),
                at@.len() == byte_len(cs@.take(k as int)),
                forall|b: int|
                    0 <= b < at@.len() ==> as_position(#[trigger] at@[b]) == char_at_byte(
                        cs@,
                        b,
                    ),
            decreases cs.len() - k,
        {
            let n: usize = bytes_of_char(cs[k]);
            let ghost start = at@.len();
            proof {
                assert(cs@.take(k + 1) =~= cs@.take(k as int) + seq![cs@[k as int]]);
                lemma_byte_len_concat(cs@.take(k as int), seq![cs@[k as int]]);
                lemma_char_at_byte(cs@, k as int);
            }
            at.push(Some(k));
            let mut j: usize = 1;
            while j < n
                invariant
                    k < cs.len(),
                    1 <= j <= n,
                    start == byte_len(cs@.take(k as int)),
                    start + n == byte_len(cs@.take(k + 1)),
                    at@.len() == start + j,
                    forall|b: int|
                        0 <= b < at@.len() ==> as_position(#[trigger] at@[b]) == char_at_byte(
                            cs@,
                            b,
                        ),
                decreases n - j,
            {
                proof {
                    lemma_inside_char(cs@, k as int, (start + j) as int);
                }
                at.push(None);
                j += 1;
            }
            k += 1;
        }
        proof {
            assert(cs@.take(k as int) =~= cs@);
            lemma_char_at_byte(cs@, k as int);
        }
        at.push(Some(k));
        ByteIndex { cs, at }
    }

    fn find(&self, b: usize) -> (r: Option<usize>)
        requires
            self.valid(),
        ensures
            as_position(r) == char_at_byte(self.cs@, b as int),
    {
        if b < self.at.len() {
            self.at[b]
        } else {
            proof {
                lemma_beyond_text(self.cs@, b as int);
            }
            None
        }
    }

    /// The text between two bytes; empty where one of them is not between characters.
    pub fn slice(&self, from: usize, to: usize) -> (r: String)
        requires
            self.valid(),
        ensures
            r@ == bytes_or_nothing(self.cs@, from as int, to as int),
    {
        match (self.find(from), self.find(to)) {
            (Some(a), Some(b)) => {
                proof {
                    lemma_char_at_byte_bound(self.cs@, from as int);
                    lemma_char_at_byte_bound(self.cs@, to as int);
                }
                if a <= b {
                    slice_text(self.cs.as_slice(), a, b)
                } else {
                    String::new()
                }
            },
            _ => String::new(),
        }
    }
}

proof fn lemma_char_at_byte_bound(s: Seq<char>, n: int)
    ensures
        char_at_byte(s, n) matches Some(k) ==> 0 <= k <= s.len(),
    decreases s.len(),
{
    if n > 0 && s.len() > 0 {
        lemma_char_at_byte_bound(s.drop_first(), n - byte_len(seq![s[0]]));
    }
}

pub open spec fn bytes_or_nothing(s: Seq<char>, from: int, to: int) -> Seq<char> {
    match byte_range(s, from, to) {
        Some(x) => x,
        None => Seq::empty(),
    }
}

// ── Line endings ────────────────────────────────────────────────────────────

/// The text with every line ending as a line feed: a carriage return, alone or in front of one,
/// becomes one.
pub open spec fn line_feeds_only(s: Seq<char>) -> Seq<char>
    decreases s.len(),
{
    if s.len() == 0 {
        s
    } else if s[0] == '\r' {
        seq!['\n'] + line_feeds_only(
            if s.len() > 1 && s[1] == '\n' {
                s.skip(2)
            } else {
                s.skip(1)
            },
        )
    } else {
        seq![s[0]] + line_feeds_only(s.skip(1))
    }
}

pub fn normalize_line_endings(s: &str) -> (r: String)
    ensures
        r@ == line_feeds_only(s@),
{
    let cs: Vec<char> = chars_of(s);
    let ghost all = line_feeds_only(s@);
    let mut out: Vec<char> = Vec::new();
    let mut i: usize = 0;
    proof {
        assert(cs@.skip(0) =~= cs@);
        assert(out@ + all =~= all);
    }
    while i < cs.len()
        invariant
            i <= cs.len(),
            all == out@ + line_feeds_only(cs@.skip(i as int)),
        decreases cs.len() - i,
    {
        let ghost rest = cs@.skip(i as int);
        let ghost before = out@;
        if cs[i] == '\r' {
            out.push('\n');
            if cs.len() - i > 1 && cs[i + 1] == '\n' {
                proof {
                    assert(rest[1] == cs@[i + 1]);
                    assert(rest.skip(2) =~= cs@.skip(i + 2));
                    assert(out@ + line_feeds_only(cs@.skip(i + 2)) =~= before + (seq!['\n']
                        + line_feeds_only(rest.skip(2))));
                }
                i += 1;
            } else {
                proof {
                    assert(rest.skip(1) =~= cs@.skip(i + 1));
                    assert(out@ + line_feeds_only(cs@.skip(i + 1)) =~= before + (seq!['\n']
                        + line_feeds_only(rest.skip(1))));
                }
            }
        } else {
            out.push(cs[i]);
            proof {
                assert(rest.skip(1) =~= cs@.skip(i + 1));
                assert(out@ + line_feeds_only(cs@.skip(i + 1)) =~= before + (seq![rest[0]]
                    + line_feeds_only(rest.skip(1))));
            }
        }
        i += 1;
    }
    assert(out@ + line_feeds_only(cs@.skip(cs@.len() as int)) =~= out@);
    string_of(out.as_slice())
}

/// No carriage return is left, and the text does not grow.
pub proof fn law_line_feeds_only(s: Seq<char>)
    ensures
        forall|i: int| 0 <= i < line_feeds_only(s).len() ==> line_feeds_only(s)[i] != '\r',
        byte_len(line_feeds_only(s)) <= byte_len(s),
    decreases s.len(),
{
    if s.len() > 0 {
        let rest = if s[0] == '\r' && s.len() > 1 && s[1] == '\n' {
            s.skip(2)
        } else {
            s.skip(1)
        };
        law_line_feeds_only(rest);
        let head = if s[0] == '\r' {
            '\n'
        } else {
            s[0]
        };
        lemma_byte_len_concat(seq![head], line_feeds_only(rest));
        lemma_byte_len_concat(s.take(s.len() - rest.len()), rest);
        assert(s =~= s.take(s.len() - rest.len()) + rest);
        let eaten = s.take(s.len() - rest.len());
        lemma_byte_len_concat(seq![s[0]], eaten.skip(1));
        assert(eaten =~= seq![s[0]] + eaten.skip(1));
        lemma_char_bytes('\n');
        lemma_char_bytes('\r');
    }
}

/// A line ending takes one byte.
proof fn lemma_char_bytes(c: char)
    requires
        (c as u32) < 128,
    ensures
        byte_len(seq![c]) == 1,
{
    assert(seq![c].drop_first() =~= Seq::<char>::empty());
    assert(vstd::utf8::encode_utf8(Seq::<char>::empty()) =~= Seq::<u8>::empty());
    assert(vstd::utf8::encode_utf8(seq![c]) =~= vstd::utf8::encode_scalar(c as u32));
}

proof fn lemma_line_feeds_identity(s: Seq<char>)
    requires
        forall|i: int| 0 <= i < s.len() ==> s[i] != '\r',
    ensures
        line_feeds_only(s) == s,
    decreases s.len(),
{
    if s.len() > 0 {
        lemma_line_feeds_identity(s.skip(1));
        assert(seq![s[0]] + s.skip(1) =~= s);
    }
}

/// A text that is normalized stays as it is.
pub proof fn law_line_feeds_only_idempotent(s: Seq<char>)
    ensures
        line_feeds_only(line_feeds_only(s)) == line_feeds_only(s),
{
    law_line_feeds_only(s);
    lemma_line_feeds_identity(line_feeds_only(s));
}

} // verus!
