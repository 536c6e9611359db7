//! Strings as sequences of characters, and the operations that the library makes on them.
use vstd::prelude::*;

verus! {

/// `str`'s `==`: true exactly when the two strings hold the same characters.
#[verifier::external_body]
pub(crate) fn same(a: &str, b: &str) -> (r: bool)
    ensures
        r == (a@ == b@),
{
    a == b
}

/// `String::push` appends the character to the end of the string.
pub assume_specification[ String::push ](s: &mut String, c: char)
    ensures
        final(s)@ == old(s)@.push(c),
;

pub open spec fn opt_chars(s: Option<&str>) -> Option<Seq<char>> {
    match s {
        Some(s) => Some(s@),
        None => None,
    }
}

pub open spec fn opt_string(s: Option<String>) -> Option<Seq<char>> {
    match s {
        Some(s) => Some(s@),
        None => None,
    }
}

/// The characters that a list of strings holds, string by string.
pub open spec fn all_chars(strings: Seq<String>) -> Seq<Seq<char>> {
    strings.map_values(|s: String| s@)
}

pub(crate) fn to_owned(s: Option<&str>) -> (r: Option<String>)
    ensures
        opt_string(r) == opt_chars(s),
{
    match s {
        Some(s) => Some(s.to_owned()),
        None => None,
    }
}

pub(crate) fn as_deref(s: &Option<String>) -> (r: Option<&str>)
    ensures
        opt_chars(r) == opt_string(*s),
{
    match s {
        Some(s) => Some(s.as_str()),
        None => None,
    }
}

pub(crate) fn clone_opt(s: &Option<String>) -> (r: Option<String>)
    ensures
        opt_string(r) == opt_string(*s),
{
    match s {
        Some(s) => Some(s.clone()),
        None => None,
    }
}

/// Whether two optional strings are both absent or hold the same characters.
pub(crate) fn same_opt(a: Option<&str>, b: Option<&str>) -> (r: bool)
    ensures
        r == (opt_chars(a) == opt_chars(b)),
{
    match (a, b) {
        (Some(a), Some(b)) => same(a, b),
        (None, None) => true,
        _ => false,
    }
}

pub(crate) fn equals(a: Option<&str>, b: &str) -> (r: bool)
    ensures
        r == (opt_chars(a) == Some(b@)),
{
    match a {
        Some(a) => same(a, b),
        None => false,
    }
}

pub(crate) fn concat(a: &str, b: &str) -> (r: String)
    ensures
        r@ == a@ + b@,
{
    let mut r = a.to_owned();
    r.append(b);
    r
}

pub fn chars_of(s: &str) -> (r: Vec<char>)
    ensures
        r@ == s@,
{
    let mut r: Vec<char> = Vec::new();
    for c in it: s.chars()
        invariant
            it.seq() == s@,
            r@ == s@.take(it.index()),
    {
        r.push(c);
        proof {
            assert(s@.take(it.index() + 1) =~= s@.take(it.index()).push(c));
        }
    }
    proof {
        assert(s@.take(s@.len() as int) =~= s@);
    }
    r
}

pub fn string_of(chars: &Vec<char>) -> (r: String)
    ensures
        r@ == chars@,
{
    let mut r = String::new();
    let mut i: usize = 0;
    while i < chars.len()
        invariant
            i <= chars@.len(),
            r@ == chars@.take(i as int),
        decreases chars@.len() - i,
    {
        r.push(chars[i]);
        proof {
            assert(chars@.take(i + 1) =~= chars@.take(i as int).push(chars@[i as int]));
        }
        i = i + 1;
    }
    proof {
        assert(chars@.take(chars@.len() as int) =~= chars@);
    }
    r
}

/// The characters with the Unicode property `White_Space`.
pub open spec fn white(c: char) -> bool {
    let n = c as u32;
    ||| 0x09 <= n <= 0x0d
    ||| n == 0x20
    ||| n == 0x85
    ||| n == 0xa0
    ||| n == 0x1680
    ||| 0x2000 <= n <= 0x200a
    ||| n == 0x2028
    ||| n == 0x2029
    ||| n == 0x202f
    ||| n == 0x205f
    ||| n == 0x3000
}

pub fn is_white(c: char) -> (r: bool)
    ensures
        r == white(c),
{
    let n: u32 = c as u32;
    (0x09 <= n && n <= 0x0d) || n == 0x20 || n == 0x85 || n == 0xa0 || n == 0x1680 || (0x2000 <= n
        && n <= 0x200a) || n == 0x2028 || n == 0x2029 || n == 0x202f || n == 0x205f || n == 0x3000
}

/// Without the white space that it starts with.
pub open spec fn trim_start(s: Seq<char>) -> Seq<char>
    decreases s.len(),
{
    if s.len() > 0 && white(s[0]) {
        trim_start(s.drop_first())
    } else {
        s
    }
}

/// Without the white space that it ends with.
pub open spec fn trim_end(s: Seq<char>) -> Seq<char>
    decreases s.len(),
{
    if s.len() > 0 && white(s.last()) {
        trim_end(s.drop_last())
    } else {
        s
    }
}

/// Without the white space at either end.
pub open spec fn trimmed(s: Seq<char>) -> Seq<char> {
    trim_end(trim_start(s))
}

pub fn trim(s: &str) -> (r: Vec<char>)
    ensures
        r@ == trimmed(s@),
{
    let chars = chars_of(s);
    let mut start: usize = 0;
    proof {
        assert(chars@.skip(0) =~= chars@);
    }
    while start < chars.len() && is_white(chars[start])
        invariant
            start <= chars@.len(),
            trim_start(chars@) == trim_start(chars@.skip(start as int)),
        decreases chars@.len() - start,
    {
        proof {
            assert(chars@.skip(start as int).drop_first() =~= chars@.skip(start + 1));
        }
        start = start + 1;
    }
    let mut end: usize = chars.len();
    let ghost front = chars@.skip(start as int);
    proof {
        assert(front.take(front.len() as int) =~= front);
    }
    while end > start && is_white(chars[end - 1])
        invariant
            start <= end <= chars@.len(),
            front == chars@.skip(start as int),
            trim_end(front) == trim_end(front.take(end - start)),
        decreases end,
    {
        proof {
            assert(front.take(end - start).drop_last() =~= front.take(end - start - 1));
        }
        end = end - 1;
    }
    let ghost kept = front.take(end - start);
    let mut r: Vec<char> = Vec::new();
    let mut i: usize = start;
    while i < end
        invariant
            start <= i <= end <= chars@.len(),
            front == chars@.skip(start as int),
            kept == front.take(end - start),
            r@ == kept.take(i - start),
        decreases end - i,
    {
        r.push(chars[i]);
        proof {
            assert(kept.take(i + 1 - start) =~= kept.take(i - start).push(chars@[i as int]));
        }
        i = i + 1;
    }
    proof {
        assert(kept.take(end - start) =~= kept);
    }
    r
}

/// Whether the string holds nothing but white space.
pub fn is_blank(s: &str) -> (r: bool)
    ensures
        r == (trimmed(s@).len() == 0),
{
    let t = trim(s);
    t.len() == 0
}

/// `needle` occurs in `s` at `at`.
pub open spec fn occurs_at(s: Seq<char>, needle: Seq<char>, at: int) -> bool {
    0 <= at <= s.len() - needle.len() && s.subrange(at, at + needle.len()) == needle
}

/// `needle` occurs somewhere in `s`.
pub open spec fn holds(s: Seq<char>, needle: Seq<char>) -> bool {
    exists|at: int| #[trigger] occurs_at(s, needle, at)
}

pub fn contains(s: &str, needle: &str) -> (r: bool)
    ensures
        r == holds(s@, needle@),
{
    let chars = chars_of(s);
    let wanted = chars_of(needle);
    if wanted.len() > chars.len() {
        return false;
    }
    let total: usize = chars.len();
    let last: usize = total - wanted.len();
    let mut at: usize = 0;
    loop
        invariant
            chars@ == s@,
            total == chars@.len(),
            wanted@ == needle@,
            last == chars@.len() - wanted@.len(),
            at <= last,
            forall|i: int| 0 <= i < at ==> !(#[trigger] occurs_at(s@, needle@, i)),
        decreases last - at,
    {
        let mut n: usize = 0;
        while n < wanted.len() && chars[at + n] == wanted[n]
            invariant
                n <= wanted@.len(),
                total == chars@.len(),
                at <= last,
                last == total - wanted@.len(),
                forall|i: int| 0 <= i < n ==> chars@[at + i] == #[trigger] wanted@[i],
            decreases wanted@.len() - n,
        {
            n = n + 1;
        }
        if n == wanted.len() {
            proof {
                assert(s@.subrange(at as int, at + needle@.len()) =~= needle@);
                assert(occurs_at(s@, needle@, at as int));
            }
            return true;
        }
        proof {
            if occurs_at(s@, needle@, at as int) {
                assert(s@.subrange(at as int, at + needle@.len())[n as int] == needle@[n as int]);
            }
        }
        if at == last {
            return false;
        }
        at = at + 1;
    }
}

/// `a` and `b` first differ at `at`, where `a` ends or has the lesser character.
pub open spec fn branches(a: Seq<char>, b: Seq<char>, at: int) -> bool {
    &&& 0 <= at <= a.len()
    &&& at < b.len()
    &&& forall|i: int| 0 <= i < at ==> a[i] == b[i]
    &&& at < a.len() ==> (a[at] as u32) < (b[at] as u32)
}

/// `a` comes before `b` in the order of strings.
pub open spec fn before(a: Seq<char>, b: Seq<char>) -> bool {
    exists|at: int| #[trigger] branches(a, b, at)
}

/// No string comes before itself, and of two strings not both come before the other.
pub proof fn before_is_strict(a: Seq<char>, b: Seq<char>)
    ensures
        !before(a, a),
        before(a, b) ==> !before(b, a),
{
    if before(a, b) && before(b, a) {
        let i = choose|at: int| #[trigger] branches(a, b, at);
        let j = choose|at: int| #[trigger] branches(b, a, at);
        if i < j {
            assert(b[i] == a[i]);
        } else if j < i {
            assert(a[j] == b[j]);
        }
    }
    if before(a, a) {
        let i = choose|at: int| #[trigger] branches(a, a, at);
    }
}

pub proof fn before_is_transitive(a: Seq<char>, b: Seq<char>, c: Seq<char>)
    requires
        before(a, b),
        before(b, c),
    ensures
        before(a, c),
{
    let i = choose|at: int| #[trigger] branches(a, b, at);
    let j = choose|at: int| #[trigger] branches(b, c, at);
    let n = if i < j {
        i
    } else {
        j
    };
    assert forall|k: int| 0 <= k < n implies a[k] == c[k] by {
        assert(a[k] == b[k]);
        assert(b[k] == c[k]);
    }
    if i < j {
        assert(b[i] == c[i]);
    } else if j < i {
        assert(a[j] == b[j]);
    }
    assert(branches(a, c, n));
}

/// Whether `a` comes before `b`.
pub fn is_before(a: &str, b: &str) -> (r: bool)
    ensures
        r == before(a@, b@),
        !r ==> a@ == b@ || before(b@, a@),
{
    let x = chars_of(a);
    let y = chars_of(b);
    let mut i: usize = 0;
    while i < x.len() && i < y.len() && x[i] == y[i]
        invariant
            i <= x@.len(),
            i <= y@.len(),
            forall|j: int| 0 <= j < i ==> x@[j] == y@[j],
        decreases x@.len() - i,
    {
        i = i + 1;
    }
    if i == y.len() {
        proof {
            if x@.len() == y@.len() {
                assert(x@ =~= y@);
                before_is_strict(a@, a@);
            } else {
                assert(branches(b@, a@, i as int));
                before_is_strict(b@, a@);
            }
        }
        false
    } else if i == x.len() {
        proof {
            assert(branches(a@, b@, i as int));
        }
        true
    } else {
        let p: char = x[i];
        let q: char = y[i];
        proof {
            vstd::utf8::char_u32_cast(p, p as u32);
            vstd::utf8::char_u32_cast(q, q as u32);
        }
        if (p as u32) < (q as u32) {
            proof {
                assert(branches(a@, b@, i as int));
            }
            true
        } else {
            proof {
                assert(branches(b@, a@, i as int));
                before_is_strict(b@, a@);
            }
            false
        }
    }
}

/// The characters after the last slash.
pub open spec fn after_slash(s: Seq<char>) -> Seq<char>
    decreases s.len(),
{
    if s.len() == 0 || s.last() == '/' {
        Seq::empty()
    } else {
        after_slash(s.drop_last()).push(s.last())
    }
}

/// The last piece that is not empty, of those that the slashes part.
pub open spec fn last_piece(s: Seq<char>) -> Option<Seq<char>>
    decreases s.len(),
{
    if s.len() == 0 {
        None
    } else if s.last() == '/' {
        last_piece(s.drop_last())
    } else {
        Some(after_slash(s))
    }
}

pub fn find_last_piece(s: &str) -> (r: Option<Vec<char>>)
    ensures
        match r {
            Some(piece) => last_piece(s@) == Some(piece@),
            None => last_piece(s@) is None,
        },
{
    let chars = chars_of(s);
    let mut current: Vec<char> = Vec::new();
    let mut last: Option<Vec<char>> = None;
    let mut i: usize = 0;
    while i < chars.len()
        invariant
            i <= chars@.len(),
            current@ == after_slash(chars@.take(i as int)),
            match last {
                Some(piece) => last_piece(chars@.take(i as int)) == Some(piece@),
                None => last_piece(chars@.take(i as int)) is None,
            },
        decreases chars@.len() - i,
    {
        proof {
            assert(chars@.take(i + 1).drop_last() =~= chars@.take(i as int));
        }
        if chars[i] == '/' {
            current = Vec::new();
        } else {
            current.push(chars[i]);
            last = Some(copied(&current));
        }
        i = i + 1;
    }
    proof {
        assert(chars@.take(i as int) =~= chars@);
    }
    last
}

pub fn copied(chars: &Vec<char>) -> (r: Vec<char>)
    ensures
        r@ == chars@,
{
    let mut r: Vec<char> = Vec::new();
    let mut i: usize = 0;
    while i < chars.len()
        invariant
            i <= chars@.len(),
            r@ == chars@.take(i as int),
        decreases chars@.len() - i,
    {
        r.push(chars[i]);
        proof {
            assert(chars@.take(i + 1) =~= chars@.take(i as int).push(chars@[i as int]));
        }
        i = i + 1;
    }
    proof {
        assert(chars@.take(chars@.len() as int) =~= chars@);
    }
    r
}

/// The characters with each `a` or `b` replaced by `with`.
pub open spec fn replaced(s: Seq<char>, a: char, b: char, with: char) -> Seq<char> {
    s.map_values(
        |c: char|
            if c == a || c == b {
                with
            } else {
                c
            },
    )
}

pub fn replace(chars: &Vec<char>, a: char, b: char, with: char) -> (r: Vec<char>)
    ensures
        r@ == replaced(chars@, a, b, with),
{
    let mut r: Vec<char> = Vec::new();
    let mut i: usize = 0;
    while i < chars.len()
        invariant
            i <= chars@.len(),
            r@ == replaced(chars@, a, b, with).take(i as int),
        decreases chars@.len() - i,
    {
        let c: char = chars[i];
        if c == a || c == b {
            r.push(with);
        } else {
            r.push(c);
        }
        proof {
            assert(replaced(chars@, a, b, with).take(i + 1) =~= replaced(chars@, a, b, with).take(
                i as int,
            ).push(replaced(chars@, a, b, with)[i as int]));
        }
        i = i + 1;
    }
    proof {
        assert(replaced(chars@, a, b, with).take(i as int) =~= replaced(chars@, a, b, with));
    }
    r
}

/// A letter of `a` to `z` in its upper case; any other character as it is.
pub open spec fn upper(c: char) -> char {
    if 'a' <= c && c <= 'z' {
        ((c as u32 - 0x20) as u32) as char
    } else {
        c
    }
}

pub fn to_upper(c: char) -> (r: char)
    ensures
        r == upper(c),
{
    if 'a' <= c && c <= 'z' {
        let n: u8 = c as u8;
        let m: u8 = n - 0x20;
        m as char
    } else {
        c
    }
}

/// Every letter of `a` to `z` in its upper case.
pub open spec fn uppers(s: Seq<char>) -> Seq<char> {
    s.map_values(|c: char| upper(c))
}

/// Whether two strings differ in nothing but the case of the letters of `a` to `z`.
pub fn same_letters(a: &str, b: &str) -> (r: bool)
    ensures
        r == (uppers(a@) == uppers(b@)),
{
    let x = chars_of(a);
    let y = chars_of(b);
    if x.len() != y.len() {
        proof {
            assert(uppers(a@).len() != uppers(b@).len());
        }
        return false;
    }
    let mut i: usize = 0;
    while i < x.len()
        invariant
            x@ == a@,
            y@ == b@,
            x@.len() == y@.len(),
            i <= x@.len(),
            forall|j: int| 0 <= j < i ==> #[trigger] uppers(a@)[j] == uppers(b@)[j],
        decreases x@.len() - i,
    {
        if to_upper(x[i]) != to_upper(y[i]) {
            proof {
                assert(uppers(a@)[i as int] != uppers(b@)[i as int]);
            }
            return false;
        }
        i = i + 1;
    }
    proof {
        assert(uppers(a@) =~= uppers(b@));
    }
    true
}

/// The first character in its upper case, where it is a letter of `a` to `z`.
pub open spec fn capitalized(s: Seq<char>) -> Seq<char> {
    if s.len() > 0 {
        s.update(0, upper(s[0]))
    } else {
        s
    }
}

/// The strings one after the other, with a line break between them.
pub open spec fn lines(strings: Seq<Seq<char>>) -> Seq<char>
    decreases strings.len(),
{
    if strings.len() == 0 {
        Seq::empty()
    } else if strings.len() == 1 {
        strings[0]
    } else {
        lines(strings.drop_last()).push('\n') + strings.last()
    }
}

pub fn join_lines(strings: &Vec<String>) -> (r: String)
    ensures
        r@ == lines(all_chars(strings@)),
{
    let mut r = String::new();
    let mut i: usize = 0;
    while i < strings.len()
        invariant
            i <= strings@.len(),
            r@ == lines(all_chars(strings@).take(i as int)),
        decreases strings@.len() - i,
    {
        let ghost all = all_chars(strings@);
        proof {
            assert(all.take(i + 1).drop_last() =~= all.take(i as int));
            assert(all.take(i + 1).last() == strings@[i as int]@);
        }
        if i > 0 {
            r.push('\n');
            r.append(strings[i].as_str());
        } else {
            r = strings[i].clone();
        }
        i = i + 1;
    }
    proof {
        assert(all_chars(strings@).take(i as int) =~= all_chars(strings@));
    }
    r
}

/// The digit for a number below ten.
pub open spec fn digit(n: nat) -> char {
    ((0x30 + n % 10) as u32) as char
}

/// A number in decimal, without leading zeros.
pub open spec fn digits(n: nat) -> Seq<char>
    decreases n,
{
    if n < 10 {
        seq![digit(n)]
    } else {
        digits(n / 10).push(digit(n))
    }
}

/// An integer in decimal.
pub open spec fn decimal(i: int) -> Seq<char> {
    if i < 0 {
        seq!['-'] + digits((-i) as nat)
    } else {
        digits(i as nat)
    }
}

fn write_digits(n: u64) -> (r: String)
    ensures
        r@ == digits(n as nat),
    decreases n,
{
    let last: u8 = 0x30 + (n % 10) as u8;
    if n < 10 {
        let mut r = String::new();
        r.push(last as char);
        proof {
            assert(r@ =~= seq![digit(n as nat)]);
        }
        r
    } else {
        let mut r = write_digits(n / 10);
        r.push(last as char);
        r
    }
}

pub fn write_decimal(i: i64) -> (r: String)
    ensures
        r@ == decimal(i as int),
{
    if i < 0 {
        let mut r = String::new();
        r.push('-');
        let n: u64 = if i == i64::MIN {
            0x8000_0000_0000_0000
        } else {
            (-i) as u64
        };
        let rest = write_digits(n);
        r.append(rest.as_str());
        proof {
            assert(r@ =~= seq!['-'] + digits(n as nat));
        }
        r
    } else {
        write_digits(i as u64)
    }
}

/// Lines are joined by a line break, and by nothing else: no lines give nothing, one gives itself, and
/// one more comes after a line break.
pub proof fn lines_are_joined(strings: Seq<Seq<char>>, more: Seq<char>)
    ensures
        lines(Seq::<Seq<char>>::empty()).len() == 0,
        strings.len() == 0 ==> lines(strings.push(more)) == more,
        strings.len() > 0 ==> lines(strings.push(more)) == lines(strings).push('\n') + more,
{
    assert(strings.push(more).drop_last() =~= strings);
    assert(strings.push(more).last() == more);
}

/// A trimmed text is a part of the text, all that is cut off at either end is white space, and the part
/// itself neither starts nor ends with any.
pub proof fn a_trimmed_text_lacks_white_space_round_it(s: Seq<char>)
    ensures
        exists|a: int, b: int|
            {
                &&& 0 <= a <= b <= s.len()
                &&& trimmed(s) == #[trigger] s.subrange(a, b)
                &&& forall|i: int| 0 <= i < a || b <= i < s.len() ==> white(#[trigger] s[i])
            },
        trimmed(s).len() > 0 ==> !white(trimmed(s)[0]) && !white(trimmed(s).last()),
{
    lemma_trimmed_start(s);
    let front = trim_start(s);
    let a = s.len() - front.len();
    lemma_trimmed_end(front);
    let b = a + trimmed(s).len();
    assert(trimmed(s) =~= s.subrange(a, b));
    assert forall|i: int| 0 <= i < a || b <= i < s.len() implies white(#[trigger] s[i]) by {
        if b <= i {
            assert(front[i - a] == s[i]);
        }
    }
    if trimmed(s).len() > 0 {
        assert(trimmed(s)[0] == front[0]);
    }
}

proof fn lemma_trimmed_start(s: Seq<char>)
    ensures
        trim_start(s).len() <= s.len(),
        trim_start(s) == s.skip(s.len() - trim_start(s).len()),
        forall|i: int| 0 <= i < s.len() - trim_start(s).len() ==> white(#[trigger] s[i]),
        trim_start(s).len() > 0 ==> !white(trim_start(s)[0]),
    decreases s.len(),
{
    if s.len() > 0 && white(s[0]) {
        let rest = s.drop_first();
        lemma_trimmed_start(rest);
        assert(trim_start(s) =~= s.skip(s.len() - trim_start(s).len()));
        assert forall|i: int| 0 <= i < s.len() - trim_start(s).len() implies white(#[trigger] s[i]) by {
            if i > 0 {
                assert(rest[i - 1] == s[i]);
            }
        }
    } else {
        assert(s =~= s.skip(0));
    }
}

proof fn lemma_trimmed_end(s: Seq<char>)
    ensures
        trim_end(s).len() <= s.len(),
        trim_end(s) == s.take(trim_end(s).len() as int),
        forall|i: int| trim_end(s).len() <= i < s.len() ==> white(#[trigger] s[i]),
        trim_end(s).len() > 0 ==> !white(trim_end(s).last()),
    decreases s.len(),
{
    if s.len() > 0 && white(s.last()) {
        let rest = s.drop_last();
        lemma_trimmed_end(rest);
        assert(trim_end(s) =~= s.take(trim_end(s).len() as int));
        assert forall|i: int| trim_end(s).len() <= i < s.len() implies white(#[trigger] s[i]) by {
            if i < rest.len() {
                assert(rest[i] == s[i]);
            }
        }
    } else {
        assert(s =~= s.take(s.len() as int));
    }
}

/// A text occurs in another exactly when the other is that text with something, or nothing, on either
/// side of it.
pub proof fn a_text_is_held_by_what_surrounds_it(s: Seq<char>, needle: Seq<char>, left: Seq<char>, right: Seq<char>)
    ensures
        holds(left + needle + right, needle),
        holds(s, needle) ==> exists|at: int|
            0 <= at <= s.len() - needle.len() && s == #[trigger] s.take(at) + needle + s.skip(at + needle.len()),
{
    let whole = left + needle + right;
    assert(whole.subrange(left.len() as int, (left.len() + needle.len()) as int) =~= needle);
    assert(occurs_at(whole, needle, left.len() as int));
    if holds(s, needle) {
        let at = choose|at: int| #[trigger] occurs_at(s, needle, at);
        let held = s.subrange(at, at + needle.len());
        assert(s =~= s.take(at) + held + s.skip(at + needle.len()));
    }
}

/// The last piece of a path has no slash, comes after one or starts the path, and only slashes come
/// after it; a path without one holds nothing but slashes.
pub proof fn the_last_piece_stands_between_slashes(s: Seq<char>)
    ensures
        match last_piece(s) {
            Some(piece) => {
                &&& piece.len() > 0
                &&& !piece.contains('/')
                &&& exists|b: int|
                    {
                        &&& piece.len() <= b <= s.len()
                        &&& piece == #[trigger] s.subrange(b - piece.len(), b)
                        &&& b > piece.len() ==> s[b - piece.len() - 1] == '/'
                        &&& forall|i: int| b <= i < s.len() ==> #[trigger] s[i] == '/'
                    }
            },
            None => forall|i: int| 0 <= i < s.len() ==> #[trigger] s[i] == '/',
        },
    decreases s.len(),
{
    if s.len() > 0 {
        let front = s.drop_last();
        if s.last() == '/' {
            the_last_piece_stands_between_slashes(front);
            match last_piece(s) {
                Some(piece) => {
                    let b = choose|b: int|
                        {
                            &&& piece.len() <= b <= front.len()
                            &&& piece == #[trigger] front.subrange(b - piece.len(), b)
                            &&& b > piece.len() ==> front[b - piece.len() - 1] == '/'
                            &&& forall|i: int| b <= i < front.len() ==> #[trigger] front[i] == '/'
                        };
                    assert(piece =~= s.subrange(b - piece.len(), b));
                    assert forall|i: int| b <= i < s.len() implies #[trigger] s[i] == '/' by {
                        if i < front.len() {
                            assert(front[i] == s[i]);
                        }
                    }
                },
                None => {
                    assert forall|i: int| 0 <= i < s.len() implies #[trigger] s[i] == '/' by {
                        if i < front.len() {
                            assert(front[i] == s[i]);
                        }
                    }
                },
            }
        } else {
            lemma_after_slash(s);
            let piece = after_slash(s);
            assert(after_slash(front).len() <= front.len()) by {
                lemma_after_slash(front);
            }
            assert(piece == s.subrange(s.len() - piece.len(), s.len() as int));
        }
    }
}

proof fn lemma_after_slash(s: Seq<char>)
    ensures
        after_slash(s).len() <= s.len(),
        !after_slash(s).contains('/'),
        after_slash(s) == s.subrange(s.len() - after_slash(s).len(), s.len() as int),
        after_slash(s).len() < s.len() ==> s[s.len() - after_slash(s).len() - 1] == '/',
    decreases s.len(),
{
    if s.len() > 0 && s.last() != '/' {
        let front = s.drop_last();
        lemma_after_slash(front);
        let piece = after_slash(s);
        assert(piece =~= s.subrange(s.len() - piece.len(), s.len() as int));
        assert forall|i: int| 0 <= i < piece.len() implies piece[i] != '/' by {
            if i < piece.len() - 1 {
                assert(piece[i] == after_slash(front)[i]);
            }
        }
    }
}

/// Replacing a character keeps the length and every other character.
pub proof fn only_what_is_replaced_changes(s: Seq<char>, a: char, b: char, with: char, i: int)
    requires
        0 <= i < s.len(),
    ensures
        replaced(s, a, b, with).len() == s.len(),
        s[i] == a || s[i] == b ==> replaced(s, a, b, with)[i] == with,
        s[i] != a && s[i] != b ==> replaced(s, a, b, with)[i] == s[i],
{
}

/// The upper case of a letter of `a` to `z` is the letter at its place of `A` to `Z`; no other
/// character changes. Only the first character of a text is capitalized.
pub proof fn only_small_letters_have_an_upper_case(c: char, s: Seq<char>, i: int)
    requires
        0 <= i < s.len(),
    ensures
        'a' <= c <= 'z' ==> 'A' <= upper(c) <= 'Z' && upper(c) as u32 - 'A' as u32 == c as u32 - 'a' as u32,
        !('a' <= c <= 'z') ==> upper(c) == c,
        uppers(s).len() == s.len(),
        uppers(s)[i] == upper(s[i]),
        capitalized(s).len() == s.len(),
        capitalized(s)[i] == if i == 0 {
            upper(s[0])
        } else {
            s[i]
        },
{
}

/// The number that a row of digits reads as.
pub open spec fn read_digits(s: Seq<char>) -> nat
    decreases s.len(),
{
    if s.len() == 0 {
        0
    } else {
        10 * read_digits(s.drop_last()) + (s.last() as u32 - '0' as u32) as nat
    }
}

/// The decimal of a number is a row of digits that reads as the number, without a zero before another
/// digit. That of a negative one has a sign before it.
pub proof fn a_decimal_reads_as_its_number(n: nat, i: int)
    ensures
        read_digits(digits(n)) == n,
        digits(n).len() > 0,
        forall|k: int| 0 <= k < digits(n).len() ==> '0' <= #[trigger] digits(n)[k] <= '9',
        digits(n).len() > 1 ==> digits(n)[0] != '0',
        i >= 0 ==> decimal(i) == digits(i as nat),
        i < 0 ==> decimal(i) == seq!['-'] + digits((-i) as nat),
    decreases n,
{
    if n < 10 {
        assert(digits(n).drop_last() =~= Seq::<char>::empty());
        assert(read_digits(digits(n)) == n) by {
            reveal_with_fuel(read_digits, 2);
        }
    } else {
        let head = digits(n / 10);
        a_decimal_reads_as_its_number(n / 10, i);
        assert(digits(n).drop_last() =~= head);
        assert(digits(n).last() == digit(n));
        assert forall|k: int| 0 <= k < digits(n).len() implies '0' <= #[trigger] digits(n)[k] <= '9' by {
            if k < head.len() {
                assert(digits(n)[k] == head[k]);
            }
        }
        assert(digits(n)[0] == head[0]);
        if n / 10 < 10 {
            assert(head[0] == digit(n / 10));
        } else {
            assert(head.len() > 1) by {
                assert(head == digits(n / 10 / 10).push(digit(n / 10)));
                a_decimal_reads_as_its_number(n / 10 / 10, i);
            }
        }
    }
}

/// White space is the blank and the control characters that move to another column or line, the next-line
/// character, and the spaces and separators of other scripts: no letter, digit or mark of ASCII is any.
pub proof fn white_space_is_what_parts_words(c: char)
    ensures
        white(' ') && white('\t') && white('\n') && white('\r'),
        '\t' <= c <= '\r' ==> white(c),
        ' ' < c <= '~' ==> !white(c),
        c < '\t' || '\r' < c < ' ' ==> !white(c),
        '~' < c && (c as u32) < 0x1680 ==> (white(c) <==> c as u32 == 0x85 || c as u32 == 0xa0),
        0x1680 <= c as u32 && (c as u32) < 0x2000 ==> (white(c) <==> c as u32 == 0x1680),
        0x2000 <= c as u32 && (c as u32) < 0x2028 ==> (white(c) <==> c as u32 <= 0x200a),
        0x2028 <= c as u32 ==> (white(c) <==> c as u32 == 0x2028 || c as u32 == 0x2029 || c as u32 == 0x202f || c as u32
            == 0x205f || c as u32 == 0x3000),
{
}

} // verus!
