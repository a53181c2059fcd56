//! Character-level groundwork: string equality, whitespace trimming, and
//! the textual formats the validators check (ports, domains, emails, URLs,
//! IP addresses and masks, durations).

use vstd::prelude::*;

verus! {

// ---------------------------------------------------------------------------
// Character classes
// ---------------------------------------------------------------------------

pub open spec fn is_space_char(c: char) -> bool {
    c == ' ' || c == '\t' || c == '\n' || c == '\r'
}

pub open spec fn is_digit_char(c: char) -> bool {
    48 <= c as u32 && c as u32 <= 57
}

pub open spec fn is_alpha_char(c: char) -> bool {
    (97 <= c as u32 && c as u32 <= 122) || (65 <= c as u32 && c as u32 <= 90)
}

pub open spec fn is_alnum_char(c: char) -> bool {
    is_alpha_char(c) || is_digit_char(c)
}

fn space_char(c: char) -> (r: bool)
    ensures
        r == is_space_char(c),
{
    c == ' ' || c == '\t' || c == '\n' || c == '\r'
}

fn digit_char(c: char) -> (r: bool)
    ensures
        r == is_digit_char(c),
{
    let u = c as u32;
    48 <= u && u <= 57
}

fn alpha_char(c: char) -> (r: bool)
    ensures
        r == is_alpha_char(c),
{
    let u = c as u32;
    (97 <= u && u <= 122) || (65 <= u && u <= 90)
}

fn alnum_char(c: char) -> (r: bool)
    ensures
        r == is_alnum_char(c),
{
    alpha_char(c) || digit_char(c)
}

// ---------------------------------------------------------------------------
// String equality
// ---------------------------------------------------------------------------

/// Character-by-character equality of two string slices.
pub fn str_eq(a: &str, b: &str) -> (r: bool)
    ensures
        r == (a@ == b@),
{
    let la = a.unicode_len();
    let lb = b.unicode_len();
    if la != lb {
        proof {
            assert(a@ != b@) by {
                if a@ == b@ {
                    assert(a@.len() == b@.len());
                }
            }
        }
        return false;
    }
    let mut i: usize = 0;
    while i < la
        invariant
            la == a@.len(),
            la == b@.len(),
            i <= la,
            forall|k: int| 0 <= k < i ==> a@[k] == b@[k],
        decreases la - i,
    {
        if a.get_char(i) != b.get_char(i) {
            proof {
                assert(a@[i as int] != b@[i as int]);
            }
            return false;
        }
        i += 1;
    }
    proof {
        assert(a@ =~= b@);
    }
    true
}

// ---------------------------------------------------------------------------
// Trimming
// ---------------------------------------------------------------------------

pub open spec fn trim_front(s: Seq<char>) -> Seq<char>
    decreases s.len(),
{
    if s.len() > 0 && is_space_char(s[0]) {
        trim_front(s.drop_first())
    } else {
        s
    }
}

pub open spec fn trim_back(s: Seq<char>) -> Seq<char>
    decreases s.len(),
{
    if s.len() > 0 && is_space_char(s.last()) {
        trim_back(s.drop_last())
    } else {
        s
    }
}

/// The whitespace-trimmed form of a character sequence.
pub open spec fn trim_spec(s: Seq<char>) -> Seq<char> {
    trim_back(trim_front(s))
}

proof fn lemma_trim_front_skip(s: Seq<char>, a: int)
    requires
        0 <= a <= s.len(),
        forall|k: int| 0 <= k < a ==> is_space_char(s[k]),
        a < s.len() ==> !is_space_char(s[a]),
    ensures
        trim_front(s) == s.subrange(a, s.len() as int),
    decreases a,
{
    if a == 0 {
        assert(s.subrange(0, s.len() as int) =~= s);
    } else {
        let t = s.drop_first();
        assert(forall|k: int| 0 <= k < a - 1 ==> is_space_char(t[k]));
        lemma_trim_front_skip(t, a - 1);
        assert(t.subrange(a - 1, t.len() as int) =~= s.subrange(a, s.len() as int));
    }
}

proof fn lemma_trim_back_take(s: Seq<char>, b: int)
    requires
        0 <= b <= s.len(),
        forall|k: int| b <= k < s.len() ==> is_space_char(s[k]),
        b > 0 ==> !is_space_char(s[b - 1]),
    ensures
        trim_back(s) == s.subrange(0, b),
    decreases s.len() - b,
{
    if b == s.len() {
        if s.len() > 0 && is_space_char(s.last()) {
            assert(false);
        }
        assert(s.subrange(0, s.len() as int) =~= s);
    } else {
        let t = s.drop_last();
        assert(is_space_char(s.last()));
        lemma_trim_back_take(t, b);
        assert(t.subrange(0, b) =~= s.subrange(0, b));
    }
}

proof fn lemma_trim_front_props(s: Seq<char>)
    ensures
        trim_front(s).len() <= s.len(),
        trim_front(s).len() > 0 ==> !is_space_char(trim_front(s)[0]),
        trim_front(s).len() > 0 ==> trim_front(s).last() == s.last(),
    decreases s.len(),
{
    if s.len() > 0 && is_space_char(s[0]) {
        lemma_trim_front_props(s.drop_first());
    }
}

proof fn lemma_trim_back_props(s: Seq<char>)
    ensures
        trim_back(s).len() <= s.len(),
        trim_back(s).len() > 0 ==> !is_space_char(trim_back(s).last()),
        trim_back(s).len() > 0 ==> trim_back(s)[0] == s[0],
    decreases s.len(),
{
    if s.len() > 0 && is_space_char(s.last()) {
        lemma_trim_back_props(s.drop_last());
    }
}

/// A sequence without leading or trailing whitespace trims to itself.
pub proof fn lemma_trim_of_clean(s: Seq<char>)
    requires
        s.len() > 0 ==> !is_space_char(s[0]),
        s.len() > 0 ==> !is_space_char(s.last()),
    ensures
        trim_spec(s) == s,
{
    assert(trim_front(s) == s);
    assert(trim_back(s) == s);
}

/// Trimming is idempotent.
pub proof fn lemma_trim_idempotent(s: Seq<char>)
    ensures
        trim_spec(trim_spec(s)) == trim_spec(s),
{
    let t = trim_front(s);
    let u = trim_back(t);
    lemma_trim_front_props(s);
    lemma_trim_back_props(t);
    if u.len() > 0 {
        assert(!is_space_char(u[0]));
        assert(!is_space_char(u.last()));
    }
    lemma_trim_of_clean(u);
}

/// Removes leading and trailing whitespace.
pub fn trim(s: &str) -> (r: String)
    ensures
        r@ == trim_spec(s@),
{
    let len = s.unicode_len();
    let mut a: usize = 0;
    while a < len && space_char(s.get_char(a))
        invariant
            len == s@.len(),
            a <= len,
            forall|k: int| 0 <= k < a ==> is_space_char(s@[k]),
        decreases len - a,
    {
        a += 1;
    }
    proof {
        lemma_trim_front_skip(s@, a as int);
    }
    let mut b: usize = len;
    while b > a && space_char(s.get_char(b - 1))
        invariant
            len == s@.len(),
            a <= b <= len,
            forall|k: int| 0 <= k < a ==> is_space_char(s@[k]),
            forall|k: int| b <= k < len ==> is_space_char(s@[k]),
        decreases b,
    {
        b -= 1;
    }
    let sub = s.substring_char(a, b);
    proof {
        let t = trim_front(s@);
        assert(t == s@.subrange(a as int, len as int));
        if b > a {
            assert(!is_space_char(s@[b - 1]));
        }
        assert(forall|k: int| b - a <= k < t.len() ==> is_space_char(t[k]));
        assert(b - a > 0 ==> !is_space_char(t[b - a - 1]));
        lemma_trim_back_take(t, b - a);
        assert(t.subrange(0, b - a) =~= s@.subrange(a as int, b as int));
    }
    String::from_str(sub)
}

// ---------------------------------------------------------------------------
// Decimal digits
// ---------------------------------------------------------------------------

pub open spec fn all_digits(s: Seq<char>) -> bool {
    forall|i: int| 0 <= i < s.len() ==> is_digit_char(s[i])
}

/// The numeric value of a sequence of decimal digits.
pub open spec fn digits_val(s: Seq<char>) -> nat
    decreases s.len(),
{
    if s.len() == 0 {
        0
    } else {
        digits_val(s.drop_last()) * 10 + (s.last() as u32 - 48) as nat
    }
}

pub open spec fn pow10(n: nat) -> nat
    decreases n,
{
    if n == 0 {
        1
    } else {
        10 * pow10((n - 1) as nat)
    }
}

pub proof fn lemma_digits_val_bound(s: Seq<char>)
    requires
        all_digits(s),
    ensures
        digits_val(s) < pow10(s.len()),
    decreases s.len(),
{
    if s.len() > 0 {
        let t = s.drop_last();
        assert(all_digits(t));
        lemma_digits_val_bound(t);
        assert(is_digit_char(s.last()));
        assert((s.last() as u32 - 48) as nat <= 9);
    }
}

pub proof fn lemma_pow10_mono(a: nat, b: nat)
    requires
        a <= b,
    ensures
        pow10(a) <= pow10(b),
    decreases b,
{
    if a < b {
        lemma_pow10_mono(a, (b - 1) as nat);
        assert(pow10((b - 1) as nat) >= 1) by {
            lemma_pow10_pos((b - 1) as nat);
        }
    }
}

pub proof fn lemma_pow10_pos(n: nat)
    ensures
        pow10(n) >= 1,
    decreases n,
{
    if n > 0 {
        lemma_pow10_pos((n - 1) as nat);
    }
}

/// Numeric value of a short run of digits, `s@[from..to]`.
fn digits_value_small(s: &str, from: usize, to: usize) -> (r: u32)
    requires
        from <= to <= s@.len(),
        to - from <= 5,
        forall|k: int| from <= k < to ==> is_digit_char(s@[k]),
    ensures
        r == digits_val(s@.subrange(from as int, to as int)),
{
    proof {
        assert(pow10(0) == 1);
        assert(pow10(1) == 10);
        assert(pow10(2) == 100);
        assert(pow10(3) == 1000);
        assert(pow10(4) == 10000);
        assert(pow10(5) == 100000);
    }
    let mut v: u32 = 0;
    let mut i: usize = from;
    while i < to
        invariant
            from <= i <= to <= s@.len(),
            to - from <= 5,
            forall|k: int| from <= k < to ==> is_digit_char(s@[k]),
            v == digits_val(s@.subrange(from as int, i as int)),
            pow10(0) == 1 && pow10(1) == 10 && pow10(2) == 100 && pow10(3) == 1000 && pow10(
                4,
            ) == 10000 && pow10(5) == 100000,
        decreases to - i,
    {
        let c = s.get_char(i);
        let d = (c as u32) - 48;
        proof {
            let pre = s@.subrange(from as int, i as int);
            let ext = s@.subrange(from as int, i as int + 1);
            assert(ext.drop_last() =~= pre);
            assert(ext.last() == s@[i as int]);
            assert(all_digits(pre));
            lemma_digits_val_bound(pre);
            lemma_pow10_mono(pre.len(), 4);
        }
        v = v * 10 + d;
        i += 1;
    }
    v
}

// ---------------------------------------------------------------------------
// Ports
// ---------------------------------------------------------------------------

/// A decimal TCP/UDP port number between 1 and 65535.
pub open spec fn is_port_spec(s: Seq<char>) -> bool {
    1 <= s.len() <= 5 && all_digits(s) && 1 <= digits_val(s) <= 65535
}

pub fn is_port(s: &str) -> (r: bool)
    ensures
        r == is_port_spec(s@),
{
    let len = s.unicode_len();
    if len < 1 || len > 5 {
        return false;
    }
    let mut i: usize = 0;
    while i < len
        invariant
            len == s@.len(),
            i <= len,
            forall|k: int| 0 <= k < i ==> is_digit_char(s@[k]),
        decreases len - i,
    {
        if !digit_char(s.get_char(i)) {
            return false;
        }
        i += 1;
    }
    let v = digits_value_small(s, 0, len);
    proof {
        assert(s@.subrange(0, len as int) =~= s@);
    }
    1 <= v && v <= 65535
}

// ---------------------------------------------------------------------------
// Domains
// ---------------------------------------------------------------------------

pub open spec fn domain_char_ok(s: Seq<char>, i: int) -> bool {
    (is_alnum_char(s[i]) || s[i] == '-' || s[i] == '.') && (s[i] == '.' ==> 0 < i && i + 1
        < s.len() && s[i - 1] != '.' && s[i - 1] != '-' && s[i + 1] != '.' && s[i + 1] != '-')
}

/// A host name: dot-separated labels of letters, digits and hyphens, where
/// no label is empty or starts or ends with a hyphen.
pub open spec fn is_domain_spec(s: Seq<char>) -> bool {
    1 <= s.len() <= 253 && is_alnum_char(s[0]) && is_alnum_char(s.last()) && (forall|i: int|
        0 <= i < s.len() ==> domain_char_ok(s, i))
}

pub fn is_domain(s: &str) -> (r: bool)
    ensures
        r == is_domain_spec(s@),
{
    let len = s.unicode_len();
    if len < 1 || len > 253 {
        return false;
    }
    if !alnum_char(s.get_char(0)) {
        return false;
    }
    if !alnum_char(s.get_char(len - 1)) {
        return false;
    }
    let mut i: usize = 0;
    while i < len
        invariant
            len == s@.len(),
            1 <= len,
            i <= len,
            forall|k: int| 0 <= k < i ==> domain_char_ok(s@, k),
        decreases len - i,
    {
        let c = s.get_char(i);
        if !(alnum_char(c) || c == '-' || c == '.') {
            proof {
                assert(!domain_char_ok(s@, i as int));
            }
            return false;
        }
        if c == '.' {
            if i == 0 || i + 1 == len {
                proof {
                    assert(!domain_char_ok(s@, i as int));
                }
                return false;
            }
            let p = s.get_char(i - 1);
            let q = s.get_char(i + 1);
            if p == '.' || p == '-' || q == '.' || q == '-' {
                proof {
                    assert(!domain_char_ok(s@, i as int));
                }
                return false;
            }
        }
        i += 1;
    }
    true
}

// ---------------------------------------------------------------------------
// Emails
// ---------------------------------------------------------------------------

pub open spec fn email_split_ok(s: Seq<char>, i: int) -> bool {
    1 <= i < s.len() && s[i] == '@' && (forall|j: int| 0 <= j < s.len() && j != i ==> s[j] != '@')
        && is_domain_spec(s.subrange(i + 1, s.len() as int))
}

/// An address with a nonempty local part, exactly one `@`, and a domain.
pub open spec fn is_email_spec(s: Seq<char>) -> bool {
    exists|i: int| email_split_ok(s, i)
}

pub fn is_email(s: &str) -> (r: bool)
    ensures
        r == is_email_spec(s@),
{
    let len = s.unicode_len();
    let mut at: usize = 0;
    let mut seen: bool = false;
    let mut i: usize = 0;
    while i < len
        invariant
            len == s@.len(),
            i <= len,
            !seen ==> forall|k: int| 0 <= k < i ==> s@[k] != '@',
            seen ==> at < i && s@[at as int] == '@' && forall|k: int|
                0 <= k < i && k != at ==> s@[k] != '@',
        decreases len - i,
    {
        if s.get_char(i) == '@' {
            if seen {
                proof {
                    assert forall|w: int| !email_split_ok(s@, w) by {
                        if email_split_ok(s@, w) {
                            if w != at as int {
                                assert(s@[at as int] != '@');
                            } else {
                                assert(s@[i as int] != '@');
                            }
                        }
                    }
                }
                return false;
            }
            at = i;
            seen = true;
        }
        i += 1;
    }
    if !seen {
        proof {
            assert forall|w: int| !email_split_ok(s@, w) by {
                if email_split_ok(s@, w) {
                    assert(s@[w] != '@');
                }
            }
        }
        return false;
    }
    if at == 0 {
        proof {
            assert forall|w: int| !email_split_ok(s@, w) by {
                if email_split_ok(s@, w) {
                    assert(w == 0);
                }
            }
        }
        return false;
    }
    let dom_ok = is_domain(s.substring_char(at + 1, len));
    proof {
        if dom_ok {
            assert(email_split_ok(s@, at as int));
        } else {
            assert forall|w: int| !email_split_ok(s@, w) by {
                if email_split_ok(s@, w) {
                    assert(w == at as int);
                }
            }
        }
    }
    dom_ok
}

// ---------------------------------------------------------------------------
// URLs
// ---------------------------------------------------------------------------

pub open spec fn url_split_ok(s: Seq<char>, i: int) -> bool {
    1 <= i && i + 3 < s.len() && s[i] == ':' && s[i + 1] == '/' && s[i + 2] == '/' && (forall|
        j: int,
    |
        0 <= j < i ==> s[j] != ':' && is_alpha_char(s[j]))
}

/// An alphabetic scheme, `://`, and a nonempty remainder.
pub open spec fn is_url_spec(s: Seq<char>) -> bool {
    exists|i: int| url_split_ok(s, i)
}

pub fn is_url(s: &str) -> (r: bool)
    ensures
        r == is_url_spec(s@),
{
    let len = s.unicode_len();
    let mut i: usize = 0;
    while i < len
        invariant
            len == s@.len(),
            i <= len,
            forall|k: int| 0 <= k < i ==> s@[k] != ':' && is_alpha_char(s@[k]),
        decreases len - i,
    {
        let c = s.get_char(i);
        if c == ':' {
            let ok = i >= 1 && len > 3 && i < len - 3 && s.get_char(i + 1) == '/' && s.get_char(
                i + 2,
            ) == '/';
            proof {
                if ok {
                    assert(url_split_ok(s@, i as int));
                } else {
                    assert forall|w: int| !url_split_ok(s@, w) by {
                        if url_split_ok(s@, w) {
                            if w < i as int {
                                assert(s@[w] != ':');
                            } else if w > i as int {
                                assert(is_alpha_char(s@[i as int]));
                            }
                        }
                    }
                }
            }
            return ok;
        }
        if !alpha_char(c) {
            proof {
                assert forall|w: int| !url_split_ok(s@, w) by {
                    if url_split_ok(s@, w) {
                        if w <= i as int {
                            assert(s@[w] == ':' || w == i as int);
                            assert(s@[i as int] != ':');
                        } else {
                            assert(is_alpha_char(s@[i as int]));
                        }
                    }
                }
            }
            return false;
        }
        i += 1;
    }
    proof {
        assert forall|w: int| !url_split_ok(s@, w) by {
            if url_split_ok(s@, w) {
                assert(s@[w] == ':');
            }
        }
    }
    false
}

// ---------------------------------------------------------------------------
// First occurrence of a character
// ---------------------------------------------------------------------------

/// Index of the first occurrence of `c` in `s`, or -1.
pub open spec fn find_char(s: Seq<char>, c: char) -> int
    decreases s.len(),
{
    if s.len() == 0 {
        -1
    } else if s[0] == c {
        0
    } else {
        let r = find_char(s.drop_first(), c);
        if r < 0 {
            -1
        } else {
            r + 1
        }
    }
}

pub proof fn lemma_find_char(s: Seq<char>, c: char)
    ensures
        find_char(s, c) == -1 ==> forall|j: int| 0 <= j < s.len() ==> s[j] != c,
        find_char(s, c) != -1 ==> 0 <= find_char(s, c) < s.len() && s[find_char(s, c)] == c && (
        forall|j: int| 0 <= j < find_char(s, c) ==> s[j] != c),
    decreases s.len(),
{
    if s.len() > 0 && s[0] != c {
        let t = s.drop_first();
        lemma_find_char(t, c);
        if find_char(t, c) == -1 {
            assert forall|j: int| 0 <= j < s.len() implies s[j] != c by {
                if j > 0 {
                    assert(t[j - 1] == s[j]);
                    assert(t[j - 1] != c);
                }
            }
        } else {
            let r = find_char(t, c);
            assert(t[r] == s[r + 1]);
            assert forall|j: int| 0 <= j < find_char(s, c) implies s[j] != c by {
                if j > 0 {
                    assert(t[j - 1] == s[j]);
                    assert(t[j - 1] != c);
                }
            }
        }
    }
}

fn find_char_str(s: &str, c: char) -> (r: Option<usize>)
    ensures
        match r {
            Some(i) => i as int == find_char(s@, c),
            None => find_char(s@, c) == -1,
        },
{
    let len = s.unicode_len();
    let mut i: usize = 0;
    while i < len
        invariant
            len == s@.len(),
            i <= len,
            forall|k: int| 0 <= k < i ==> s@[k] != c,
        decreases len - i,
    {
        if s.get_char(i) == c {
            proof {
                lemma_find_char(s@, c);
                assert(find_char(s@, c) == i as int) by {
                    if find_char(s@, c) == -1 {
                        assert(s@[i as int] != c);
                    } else if find_char(s@, c) < i as int {
                        assert(s@[find_char(s@, c)] != c);
                    } else if find_char(s@, c) > i as int {
                        assert(s@[i as int] != c);
                    }
                }
            }
            return Some(i);
        }
        i += 1;
    }
    proof {
        lemma_find_char(s@, c);
        if find_char(s@, c) != -1 {
            assert(s@[find_char(s@, c)] != c);
        }
    }
    None
}

// ---------------------------------------------------------------------------
// IPv4 addresses, optionally with a prefix mask
// ---------------------------------------------------------------------------

pub open spec fn is_octet(s: Seq<char>) -> bool {
    1 <= s.len() <= 3 && all_digits(s) && digits_val(s) <= 255
}

pub open spec fn is_ipv4_parts(s: Seq<char>, parts: int) -> bool
    decreases parts,
{
    if parts <= 1 {
        is_octet(s)
    } else {
        let i = find_char(s, '.');
        0 <= i && is_octet(s.subrange(0, i)) && is_ipv4_parts(
            s.subrange(i + 1, s.len() as int),
            parts - 1,
        )
    }
}

/// A dotted-quad IPv4 address, optionally followed by `/` and a prefix
/// length of at most 32.
pub open spec fn is_ip_or_mask_spec(s: Seq<char>) -> bool {
    let sl = find_char(s, '/');
    if sl < 0 {
        is_ipv4_parts(s, 4)
    } else {
        is_ipv4_parts(s.subrange(0, sl), 4) && {
            let m = s.subrange(sl + 1, s.len() as int);
            1 <= m.len() <= 2 && all_digits(m) && digits_val(m) <= 32
        }
    }
}

fn is_octet_str(s: &str) -> (r: bool)
    ensures
        r == is_octet(s@),
{
    let len = s.unicode_len();
    if len < 1 || len > 3 {
        return false;
    }
    let mut i: usize = 0;
    while i < len
        invariant
            len == s@.len(),
            i <= len,
            forall|k: int| 0 <= k < i ==> is_digit_char(s@[k]),
        decreases len - i,
    {
        if !digit_char(s.get_char(i)) {
            return false;
        }
        i += 1;
    }
    let v = digits_value_small(s, 0, len);
    proof {
        assert(s@.subrange(0, len as int) =~= s@);
    }
    v <= 255
}

fn is_ipv4_parts_str(s: &str, parts: usize) -> (r: bool)
    requires
        1 <= parts,
    ensures
        r == is_ipv4_parts(s@, parts as int),
    decreases parts,
{
    if parts == 1 {
        is_octet_str(s)
    } else {
        match find_char_str(s, '.') {
            None => false,
            Some(i) => {
                proof {
                    lemma_find_char(s@, '.');
                }
                if !is_octet_str(s.substring_char(0, i)) {
                    false
                } else {
                    let len = s.unicode_len();
                    is_ipv4_parts_str(s.substring_char(i + 1, len), parts - 1)
                }
            },
        }
    }
}

pub fn is_ip_or_mask(s: &str) -> (r: bool)
    ensures
        r == is_ip_or_mask_spec(s@),
{
    let len = s.unicode_len();
    match find_char_str(s, '/') {
        None => is_ipv4_parts_str(s, 4),
        Some(sl) => {
            proof {
                lemma_find_char(s@, '/');
            }
            if !is_ipv4_parts_str(s.substring_char(0, sl), 4) {
                return false;
            }
            let mlen = len - sl - 1;
            if mlen < 1 || mlen > 2 {
                return false;
            }
            let mut i: usize = sl + 1;
            while i < len
                invariant
                    len == s@.len(),
                    sl < i <= len,
                    sl as int == find_char(s@, '/'),
                    is_ipv4_parts(s@.subrange(0, sl as int), 4),
                    1 <= len - sl - 1 <= 2,
                    forall|k: int| sl < k < i ==> is_digit_char(s@[k]),
                decreases len - i,
            {
                if !digit_char(s.get_char(i)) {
                    proof {
                        let m = s@.subrange(find_char(s@, '/') + 1, s@.len() as int);
                        assert(m[i - sl - 1] == s@[i as int]);
                        assert(!is_digit_char(m[i - sl - 1]));
                        assert(!all_digits(m));
                        assert(!is_ip_or_mask_spec(s@));
                    }
                    return false;
                }
                i += 1;
            }
            let v = digits_value_small(s, sl + 1, len);
            proof {
                let m = s@.subrange(sl as int + 1, len as int);
                assert(forall|k: int| 0 <= k < m.len() ==> m[k] == s@[k + sl + 1]);
            }
            v <= 32
        },
    }
}

// ---------------------------------------------------------------------------
// Durations
// ---------------------------------------------------------------------------

/// Length of the leading run of decimal digits.
pub open spec fn digit_prefix_len(s: Seq<char>) -> int
    decreases s.len(),
{
    if s.len() > 0 && is_digit_char(s[0]) {
        1 + digit_prefix_len(s.drop_first())
    } else {
        0
    }
}

proof fn lemma_digit_prefix_len(s: Seq<char>, n: int)
    requires
        0 <= n <= s.len(),
        forall|k: int| 0 <= k < n ==> is_digit_char(s[k]),
        n < s.len() ==> !is_digit_char(s[n]),
    ensures
        digit_prefix_len(s) == n,
    decreases n,
{
    if n == 0 {
    } else {
        let t = s.drop_first();
        assert(forall|k: int| 0 <= k < n - 1 ==> t[k] == s[k + 1]);
        lemma_digit_prefix_len(t, n - 1);
    }
}

/// Milliseconds per unit suffix; a bare number counts milliseconds.
pub open spec fn unit_millis(u: Seq<char>) -> Option<nat> {
    if u.len() == 0 {
        Some(1 as nat)
    } else if u == seq!['m', 's'] {
        Some(1 as nat)
    } else if u == seq!['s'] {
        Some(1000 as nat)
    } else if u == seq!['m'] {
        Some(60000 as nat)
    } else if u == seq!['h'] {
        Some(3600000 as nat)
    } else if u == seq!['d'] {
        Some(86400000 as nat)
    } else {
        None
    }
}

/// A duration of the form `<digits><unit>`, as milliseconds; `None` when the
/// text is malformed or the value does not fit in 64 bits.
pub open spec fn parse_duration_spec(s: Seq<char>) -> Option<nat> {
    let n = digit_prefix_len(s);
    if n == 0 {
        None
    } else {
        let mag = digits_val(s.subrange(0, n));
        match unit_millis(s.subrange(n, s.len() as int)) {
            Some(m) => if mag <= (u64::MAX as nat) / m {
                Some((mag * m) as nat)
            } else {
                None
            },
            None => None,
        }
    }
}

pub proof fn lemma_parse_duration_fits(s: Seq<char>)
    ensures
        parse_duration_spec(s) is Some ==> parse_duration_spec(s).unwrap() <= u64::MAX,
{
    if parse_duration_spec(s) is Some {
        let n = digit_prefix_len(s);
        let mag = digits_val(s.subrange(0, n));
        let m = unit_millis(s.subrange(n, s.len() as int)).unwrap();
        vstd::arithmetic::div_mod::lemma_fundamental_div_mod(u64::MAX as int, m as int);
        vstd::arithmetic::div_mod::lemma_mod_bound(u64::MAX as int, m as int);
        assert(mag * m <= ((u64::MAX as nat) / m) * m) by (nonlinear_arith)
            requires
                mag <= (u64::MAX as nat) / m,
                m >= 1,
        ;
    }
}

/// Parses `<digits><unit>` (units `ms`, `s`, `m`, `h`, `d`; bare digits are
/// milliseconds) into milliseconds.
pub fn parse_duration(s: &str) -> (r: Option<u64>)
    ensures
        match r {
            Some(v) => parse_duration_spec(s@) == Some(v as nat),
            None => parse_duration_spec(s@) is None,
        },
{
    let len = s.unicode_len();
    let mut n: usize = 0;
    while n < len && digit_char(s.get_char(n))
        invariant
            len == s@.len(),
            n <= len,
            forall|k: int| 0 <= k < n ==> is_digit_char(s@[k]),
        decreases len - n,
    {
        n += 1;
    }
    proof {
        lemma_digit_prefix_len(s@, n as int);
    }
    if n == 0 {
        return None;
    }
    let mut v: u64 = 0;
    let mut over: bool = false;
    let mut i: usize = 0;
    while i < n
        invariant
            len == s@.len(),
            i <= n <= len,
            forall|k: int| 0 <= k < n ==> is_digit_char(s@[k]),
            !over ==> v as nat == digits_val(s@.subrange(0, i as int)),
            over ==> digits_val(s@.subrange(0, i as int)) > u64::MAX,
        decreases n - i,
    {
        let c = s.get_char(i);
        let d = ((c as u32) - 48) as u64;
        proof {
            let pre = s@.subrange(0, i as int);
            let ext = s@.subrange(0, i as int + 1);
            assert(ext.drop_last() =~= pre);
            assert(ext.last() == s@[i as int]);
        }
        if over {
        } else if v > (u64::MAX - d) / 10 {
            proof {
                let q = ((u64::MAX - d) / 10) as int;
                vstd::arithmetic::div_mod::lemma_fundamental_div_mod(u64::MAX as int - d, 10);
                vstd::arithmetic::div_mod::lemma_mod_bound(u64::MAX as int - d, 10);
                assert(10 * q >= u64::MAX - d - 9);
                assert(v as int * 10 >= 10 * (q + 1));
            }
            over = true;
        } else {
            proof {
                let q = ((u64::MAX - d) / 10) as int;
                vstd::arithmetic::div_mod::lemma_fundamental_div_mod(u64::MAX as int - d, 10);
                vstd::arithmetic::div_mod::lemma_mod_bound(u64::MAX as int - d, 10);
                assert(10 * q <= u64::MAX - d);
                assert(v as int * 10 <= 10 * q);
            }
            v = v * 10 + d;
        }
        i += 1;
    }
    let rest = s.substring_char(n, len);
    let m_opt: Option<u64> = if rest.unicode_len() == 0 {
        Some(1)
    } else if str_eq(rest, "ms") {
        Some(1)
    } else if str_eq(rest, "s") {
        Some(1000)
    } else if str_eq(rest, "m") {
        Some(60000)
    } else if str_eq(rest, "h") {
        Some(3600000)
    } else if str_eq(rest, "d") {
        Some(86400000)
    } else {
        None
    };
    proof {
        reveal_strlit("ms");
        reveal_strlit("s");
        reveal_strlit("m");
        reveal_strlit("h");
        reveal_strlit("d");
        assert("ms"@ =~= seq!['m', 's']);
        assert("s"@ =~= seq!['s']);
        assert("m"@ =~= seq!['m']);
        assert("h"@ =~= seq!['h']);
        assert("d"@ =~= seq!['d']);
        assert(rest@ == s@.subrange(n as int, s@.len() as int));
        match m_opt {
            Some(m) => {
                assert(unit_millis(rest@) == Some(m as nat));
            },
            None => {
                assert(unit_millis(rest@) is None);
            },
        }
    }
    let m = match m_opt {
        Some(m) => m,
        None => {
            return None;
        },
    };
    if over {
        proof {
            vstd::arithmetic::div_mod::lemma_div_nonincreasing(u64::MAX as int, m as int);
        }
        return None;
    }
    if v > u64::MAX / m {
        return None;
    }
    proof {
        vstd::arithmetic::div_mod::lemma_fundamental_div_mod(u64::MAX as int, m as int);
        vstd::arithmetic::div_mod::lemma_mod_bound(u64::MAX as int, m as int);
        assert(v as int * m as int <= ((u64::MAX as int) / m as int) * m as int)
            by (nonlinear_arith)
            requires
                v as int <= (u64::MAX as int) / m as int,
                m as int >= 1,
        ;
    }
    Some(v * m)
}

// ---------------------------------------------------------------------------
// Rendering a duration back to text
// ---------------------------------------------------------------------------

pub open spec fn digit_of(d: nat) -> char {
    ((48 + d) as u8) as char
}

/// Decimal digits of `n`, most significant first.
pub open spec fn render_nat(n: nat) -> Seq<char>
    decreases n,
{
    if n < 10 {
        seq![digit_of(n)]
    } else {
        render_nat(n / 10).push(digit_of(n % 10))
    }
}

/// Milliseconds rendered as `<digits>ms`.
pub open spec fn render_duration(n: nat) -> Seq<char> {
    render_nat(n) + seq!['m', 's']
}

pub proof fn lemma_render_nat(n: nat)
    ensures
        render_nat(n).len() >= 1,
        all_digits(render_nat(n)),
        digits_val(render_nat(n)) == n,
    decreases n,
{
    if n < 10 {
        reveal_with_fuel(digits_val, 3);
        let r = render_nat(n);
        assert(r.len() == 1);
        assert(r[0] == digit_of(n));
        assert(digit_of(n) as u32 == 48 + n);
        assert(is_digit_char(digit_of(n)));
        assert(r.drop_last() =~= Seq::<char>::empty());
        assert(r.last() == r[0]);
        assert(digits_val(r) == (r[0] as u32 - 48) as nat);
    } else {
        lemma_render_nat(n / 10);
        vstd::arithmetic::div_mod::lemma_fundamental_div_mod(n as int, 10);
        vstd::arithmetic::div_mod::lemma_mod_bound(n as int, 10);
        let r = render_nat(n);
        let h = render_nat(n / 10);
        let d = n % 10;
        assert(is_digit_char(digit_of(d)));
        assert(r.drop_last() =~= h);
        assert(r.last() == digit_of(d));
        assert(forall|k: int|
            0 <= k < r.len() ==> r[k] == (if k < h.len() {
                h[k]
            } else {
                digit_of(d)
            }));
        assert(digits_val(r) == digits_val(h) * 10 + ((digit_of(d) as u32 - 48) as nat));
    }
}

/// Rendering then parsing a duration gives the value back.
pub proof fn lemma_parse_render_duration(n: nat)
    requires
        n <= u64::MAX,
    ensures
        parse_duration_spec(render_duration(n)) == Some(n),
{
    let r = render_duration(n);
    let h = render_nat(n);
    lemma_render_nat(n);
    assert('m' as u32 == 109);
    assert(h.len() < r.len());
    assert(forall|k: int| 0 <= k < h.len() ==> r[k] == h[k]);
    assert(r[h.len() as int] == 'm');
    assert(!is_digit_char('m'));
    assert forall|k: int| 0 <= k < h.len() implies is_digit_char(r[k]) by {
        assert(r[k] == h[k]);
        assert(is_digit_char(h[k]));
    }
    lemma_digit_prefix_len(r, h.len() as int);
    assert(digit_prefix_len(r) == h.len());
    assert(r.subrange(0, h.len() as int) =~= h);
    assert(digits_val(r.subrange(0, h.len() as int)) == n);
    assert(r.subrange(h.len() as int, r.len() as int) =~= seq!['m', 's']);
    assert(seq!['m', 's'].len() != 0);
    assert(unit_millis(seq!['m', 's']) == Some(1 as nat));
    assert((u64::MAX as nat) / 1 == u64::MAX as nat);
    assert(n * 1 == n);
    assert(parse_duration_spec(r) == Some(n));
}

} // verus!
