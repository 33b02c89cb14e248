//! Decisions of the self-update checker: when to ask for the latest release,
//! which release a listing names, and whether it is newer than the running
//! version. Fetching, caching and showing are left to the caller.

use vstd::prelude::*;
use vstd::string::StringExecFns;
use crate::loader::{split_chars, split_spec};
use crate::report::{digits, push_digits, field_spec, json_of_text, member, opt_deref, opt_view, parse_json, text_in, text_of, Json};
use crate::table::strings_view;
use crate::text::{chars_of, string_from_chars, trim_range, trimmed};
use std::cmp::Ordering;
use vstd::std_specs::convert::IntoSpec;

verus! {

broadcast use vstd::seq_lib::group_seq_properties;

/// A release that the checker found.
#[derive(Debug)]
pub struct ReleaseInfo {
    pub tag: String,
    pub html_url: String,
    pub etag: Option<String>,
}

/// Why an update check failed.
#[derive(Debug)]
pub enum UpdateError {
    Network(String),
    Http(u16),
    Json(String),
    Io(String),
}

/// Settings of an update check against one repository's releases.
#[derive(Debug)]
pub struct UpdateChecker {
    pub owner: String,
    pub repo: String,
    pub current_version: String,
    pub check_prereleases: bool,
    pub min_interval_minutes: i64,
    pub github_token: Option<String>,
    /// Organisation under which the checker keeps its settings.
    pub org: String,
    /// Application under which the checker keeps its settings.
    pub app: String,
}

impl UpdateChecker {
    /// A checker for `owner`/`repo` at `current_version`: stable releases
    /// only, at most one check a day, no token, and a placeholder settings
    /// namespace.
    pub fn new<S: Into<String>>(owner: S, repo: S, current_version: S) -> (r: Self)
        ensures
            S::obeys_into_spec() ==> r.owner == owner.into_spec() && r.repo == repo.into_spec()
                && r.current_version == current_version.into_spec(),
            !r.check_prereleases,
            r.min_interval_minutes == 60 * 24,
            r.github_token is None,
            r.org@ == "YOUR_ORG"@,
            r.app@ == "YOUR_APP"@,
    {
        UpdateChecker {
            owner: owner.into(),
            repo: repo.into(),
            current_version: current_version.into(),
            check_prereleases: false,
            min_interval_minutes: 60 * 24,
            github_token: None,
            org: String::from_str("YOUR_ORG"),
            app: String::from_str("YOUR_APP"),
        }
    }

    /// The same checker with its settings kept under `org`/`app`.
    pub fn with_settings_namespace<A: Into<String>, B: Into<String>>(self, org: A, app: B) -> (r: Self)
        ensures
            A::obeys_into_spec() ==> r.org == org.into_spec(),
            B::obeys_into_spec() ==> r.app == app.into_spec(),
            r.owner == self.owner,
            r.repo == self.repo,
            r.current_version == self.current_version,
            r.check_prereleases == self.check_prereleases,
            r.min_interval_minutes == self.min_interval_minutes,
            r.github_token == self.github_token,
    {
        let mut s = self;
        s.org = org.into();
        s.app = app.into();
        s
    }
}

pub open spec fn is_digit(c: char) -> bool {
    '0' <= c && c <= '9'
}

/// The number that a string of decimal digits denotes.
pub open spec fn digits_value(s: Seq<char>) -> nat
    decreases s.len(),
{
    if s.len() == 0 {
        0
    } else {
        digits_value(s.drop_last()) * 10 + ((s.last() as u32) - ('0' as u32)) as nat
    }
}

/// A string without its leading `+`, if it has one.
pub open spec fn unsigned_part(s: Seq<char>) -> Seq<char> {
    if s.len() > 0 && s[0] == '+' {
        s.drop_first()
    } else {
        s
    }
}

pub open spec fn all_digits(d: Seq<char>) -> bool {
    forall|i: int| 0 <= i < d.len() ==> is_digit(#[trigger] d[i])
}

/// std's `u64` parsing: an optional `+`, then one or more decimal digits
/// whose value fits in `u64`.
pub open spec fn parse_u64_spec(s: Seq<char>) -> Option<nat> {
    let d = unsigned_part(s);
    if d.len() > 0 && all_digits(d) && digits_value(d) <= u64::MAX {
        Some(digits_value(d))
    } else {
        None
    }
}

/// Parses a decimal `u64` as std does.
pub fn parse_u64(s: &Vec<char>) -> (r: Option<u64>)
    ensures
        match r {
            Some(n) => parse_u64_spec(s@) == Some(n as nat),
            None => parse_u64_spec(s@) is None,
        },
{
    let start: usize = if s.len() > 0 && s[0] == '+' {
        1
    } else {
        0
    };
    let ghost d = s@.subrange(start as int, s@.len() as int);
    assert(d =~= unsigned_part(s@));
    if start == s.len() {
        return None;
    }
    let mut value: u64 = 0;
    let mut i: usize = start;
    while i < s.len()
        invariant
            start <= i <= s@.len(),
            d == s@.subrange(start as int, s@.len() as int),
            d == unsigned_part(s@),
            d.len() > 0,
            forall|q: int| start <= q < i ==> is_digit(s@[q]),
            value as nat == digits_value(s@.subrange(start as int, i as int)),
        decreases s@.len() - i,
    {
        let c = s[i];
        assert(s@.subrange(start as int, i + 1).drop_last() =~= s@.subrange(start as int, i as int));
        if !('0' <= c && c <= '9') {
            assert(d[i - start] == s@[i as int]);
            assert(!is_digit(d[i - start]));
            assert(!all_digits(d));
            assert(parse_u64_spec(s@) is None);
            return None;
        }
        let next: u128 = (value as u128) * 10 + ((c as u32) - ('0' as u32)) as u128;
        if next > u64::MAX as u128 {
            proof {
                assert(d.subrange(0, (i + 1 - start) as int) =~= s@.subrange(start as int, i + 1));
                assert(digits_value(s@.subrange(start as int, i + 1)) == next);
                if all_digits(d) {
                    lemma_digits_value_prefix(d, (i + 1 - start) as int);
                    assert(digits_value(d) > u64::MAX);
                }
                assert(parse_u64_spec(s@) is None);
            }
            return None;
        }
        value = next as u64;
        i = i + 1;
    }
    assert(s@.subrange(start as int, i as int) =~= d);
    Some(value)
}

proof fn lemma_digits_value_prefix(d: Seq<char>, k: int)
    requires
        0 <= k <= d.len(),
        forall|i: int| 0 <= i < d.len() ==> is_digit(#[trigger] d[i]),
    ensures
        digits_value(d.subrange(0, k)) <= digits_value(d),
    decreases d.len(),
{
    if k < d.len() {
        assert(d.drop_last().subrange(0, k) =~= d.subrange(0, k));
        lemma_digits_value_prefix(d.drop_last(), k);
    } else {
        assert(d.subrange(0, k) =~= d);
    }
}

/// A string without its leading `v`s and `V`s.
pub open spec fn strip_v(s: Seq<char>) -> Seq<char>
    decreases s.len(),
{
    if s.len() > 0 && (s[0] == 'v' || s[0] == 'V') {
        strip_v(s.drop_first())
    } else {
        s
    }
}

pub open spec fn is_version_sep(c: char) -> bool {
    c == '.' || c == '-' || c == '+'
}

/// The pieces of `s` between version separators (`.`, `-`, `+`).
pub open spec fn version_parts(s: Seq<char>) -> Seq<Seq<char>>
    decreases s.len(),
{
    if s.len() == 0 {
        seq![Seq::empty()]
    } else {
        let p = version_parts(s.drop_last());
        if is_version_sep(s.last()) {
            p.push(Seq::empty())
        } else {
            p.update(p.len() - 1, p.last().push(s.last()))
        }
    }
}

proof fn lemma_version_parts_nonempty(s: Seq<char>)
    ensures
        version_parts(s).len() >= 1,
    decreases s.len(),
{
    if s.len() > 0 {
        lemma_version_parts_nonempty(s.drop_last());
    }
}

/// The numbers that the leading parts denote, up to `k` of them, stopping
/// at the first part that is not a number.
pub open spec fn leading_numbers(parts: Seq<Seq<char>>, k: nat) -> Seq<nat>
    decreases parts.len(),
{
    if parts.len() == 0 || k == 0 {
        Seq::empty()
    } else {
        match parse_u64_spec(parts[0]) {
            Some(n) => seq![n] + leading_numbers(parts.drop_first(), (k - 1) as nat),
            None => Seq::empty(),
        }
    }
}

/// Numbers written in decimal and joined with `.`.
pub open spec fn dotted(nums: Seq<nat>) -> Seq<char>
    decreases nums.len(),
{
    if nums.len() == 0 {
        Seq::empty()
    } else if nums.len() == 1 {
        digits(nums[0])
    } else {
        dotted(nums.drop_last()) + seq!['.'] + digits(nums.last())
    }
}

/// A version tag reduced to at most three dotted numbers: whitespace and
/// leading `v`s dropped, then the leading numeric parts; the stripped tag
/// itself where it starts with no number.
pub open spec fn normalise_spec(s: Seq<char>) -> Seq<char> {
    let v = strip_v(trimmed(s));
    let nums = leading_numbers(version_parts(v), 3);
    if nums.len() == 0 {
        v
    } else {
        dotted(nums)
    }
}

fn split_version(s: &Vec<char>) -> (r: Vec<Vec<char>>)
    ensures
        r@.map_values(|v: Vec<char>| v@) == version_parts(s@),
{
    let mut done: Vec<Vec<char>> = Vec::new();
    let mut cur: Vec<char> = Vec::new();
    assert(s@.subrange(0, 0) =~= Seq::<char>::empty());
    assert(done@.map_values(|v: Vec<char>| v@).push(cur@) =~= seq![Seq::<char>::empty()]);
    for i in 0..s.len()
        invariant
            done@.map_values(|v: Vec<char>| v@).push(cur@) == version_parts(s@.subrange(0, i as int)),
    {
        let ghost before = done@.map_values(|v: Vec<char>| v@);
        let ghost old_cur = cur@;
        assert(s@.subrange(0, i + 1).drop_last() =~= s@.subrange(0, i as int));
        assert(s@.subrange(0, i + 1).last() == s@[i as int]);
        let c = s[i];
        if c == '.' || c == '-' || c == '+' {
            done.push(cur);
            cur = Vec::new();
            assert(done@.map_values(|v: Vec<char>| v@).push(cur@) =~= before.push(old_cur).push(Seq::empty()));
        } else {
            cur.push(c);
            assert(done@.map_values(|v: Vec<char>| v@).push(cur@) =~= before.push(old_cur).update(
                before.len() as int,
                old_cur.push(c),
            ));
        }
    }
    assert(s@.subrange(0, s@.len() as int) =~= s@);
    let ghost before = done@.map_values(|v: Vec<char>| v@);
    done.push(cur);
    assert(done@.map_values(|v: Vec<char>| v@) =~= before.push(cur@));
    done
}

/// Reduces a version tag to its leading dotted numbers (at most three).
pub fn normalise(v: &str) -> (r: String)
    ensures
        r@ == normalise_spec(v@),
{
    let cs = chars_of(v);
    let t = trim_range(&cs, 0, cs.len());
    assert(cs@.subrange(0, cs@.len() as int) =~= cs@);
    let mut a: usize = 0;
    assert(t@.subrange(0, t@.len() as int) =~= t@);
    while a < t.len() && (t[a] == 'v' || t[a] == 'V')
        invariant
            a <= t@.len(),
            strip_v(t@) == strip_v(t@.subrange(a as int, t@.len() as int)),
        decreases t@.len() - a,
    {
        assert(t@.subrange(a as int, t@.len() as int).drop_first() =~= t@.subrange(a + 1, t@.len() as int));
        a = a + 1;
    }
    let stripped = crate::text::sub_chars(&t, a, t.len());
    assert(strip_v(t@.subrange(a as int, t@.len() as int)) == t@.subrange(a as int, t@.len() as int));
    assert(stripped@ == strip_v(trimmed(v@)));
    let parts = split_version(&stripped);
    let ghost ps = parts@.map_values(|x: Vec<char>| x@);
    let mut nums: Vec<u64> = Vec::new();
    let mut k: usize = 0;
    assert(ps.subrange(0, ps.len() as int) =~= ps);
    while k < parts.len() && nums.len() < 3
        invariant_except_break
            leading_numbers(ps, 3) == nums@.map_values(|n: u64| n as nat) + leading_numbers(
                ps.subrange(k as int, ps.len() as int),
                (3 - k) as nat,
            ),
        invariant
            ps == parts@.map_values(|x: Vec<char>| x@),
            k <= parts@.len(),
            nums@.len() == k,
            k <= 3,
        ensures
            leading_numbers(ps, 3) == nums@.map_values(|n: u64| n as nat),
        decreases parts@.len() - k,
    {
        let ghost rest = ps.subrange(k as int, ps.len() as int);
        assert(rest.drop_first() =~= ps.subrange(k + 1, ps.len() as int));
        assert(rest[0] == parts@[k as int]@);
        match parse_u64(&parts[k]) {
            Some(n) => {
                let ghost before = nums@.map_values(|n: u64| n as nat);
                nums.push(n);
                assert(nums@.map_values(|n: u64| n as nat) =~= before.push(n as nat));
                assert(before.push(n as nat) + leading_numbers(ps.subrange(k + 1, ps.len() as int), (3 - k - 1) as nat)
                    =~= before + (seq![n as nat] + leading_numbers(rest.drop_first(), (3 - k - 1) as nat)));
            },
            None => {
                assert(leading_numbers(rest, (3 - k) as nat) =~= Seq::<nat>::empty());
                assert(leading_numbers(ps, 3) =~= nums@.map_values(|n: u64| n as nat));
                break;
            },
        }
        k = k + 1;
    }
    let ghost ns = nums@.map_values(|n: u64| n as nat);
    if nums.len() == 0 {
        return string_from_chars(stripped.as_slice());
    }
    let mut out: Vec<char> = Vec::new();
    for q in 0..nums.len()
        invariant
            ns == nums@.map_values(|n: u64| n as nat),
            nums@.len() > 0,
            q == 0 ==> out@ == Seq::<char>::empty(),
            q > 0 ==> out@ == dotted(ns.subrange(0, q as int)),
    {
        let ghost before = out@;
        if q > 0 {
            out.push('.');
        }
        push_digits(nums[q], &mut out);
        proof {
            let sub = ns.subrange(0, q + 1);
            assert(sub.drop_last() =~= ns.subrange(0, q as int));
            assert(sub.last() == nums@[q as int] as nat);
            if q == 0 {
                assert(out@ =~= digits(nums@[0] as nat));
            } else {
                assert(out@ =~= before + seq!['.'] + digits(nums@[q as int] as nat));
            }
        }
    }
    assert(ns.subrange(0, ns.len() as int) =~= ns);
    assert(ps == version_parts(stripped@));
    assert(out@ == dotted(ns));
    string_from_chars(out.as_slice())
}

/// The numbers among the `.`-separated parts, in order; parts that are not
/// numbers are skipped.
pub open spec fn numbers_of(parts: Seq<Seq<char>>) -> Seq<nat>
    decreases parts.len(),
{
    if parts.len() == 0 {
        Seq::empty()
    } else {
        let p = numbers_of(parts.drop_last());
        match parse_u64_spec(parts.last()) {
            Some(n) => p.push(n),
            None => p,
        }
    }
}

/// The numeric components of a version tag.
pub open spec fn version_numbers(s: Seq<char>) -> Seq<nat> {
    numbers_of(split_spec(normalise_spec(s), '.'))
}

pub open spec fn component(p: Seq<nat>, i: int) -> nat {
    if 0 <= i < p.len() {
        p[i]
    } else {
        0
    }
}

/// Component-wise comparison from position `i` up to `n`, a missing
/// component counting as zero.
pub open spec fn compare_from(pa: Seq<nat>, pb: Seq<nat>, i: int, n: int) -> Ordering
    decreases n - i,
{
    if i >= n {
        Ordering::Equal
    } else if component(pa, i) > component(pb, i) {
        Ordering::Greater
    } else if component(pa, i) < component(pb, i) {
        Ordering::Less
    } else {
        compare_from(pa, pb, i + 1, n)
    }
}

pub open spec fn max3(a: int, b: int) -> int {
    let m = if a >= b { a } else { b };
    if m >= 3 { m } else { 3 }
}

/// How version `a` orders against version `b`.
pub open spec fn semver_order(a: Seq<char>, b: Seq<char>) -> Ordering {
    let pa = version_numbers(a);
    let pb = version_numbers(b);
    compare_from(pa, pb, 0, max3(pa.len() as int, pb.len() as int))
}

fn version_components(v: &str) -> (r: Vec<u64>)
    ensures
        r@.map_values(|n: u64| n as nat) == version_numbers(v@),
{
    let n = normalise(v);
    let parts = split_chars(&chars_of(n.as_str()), '.');
    let ghost ps = strings_view(parts@);
    let mut out: Vec<u64> = Vec::new();
    for k in 0..parts.len()
        invariant
            ps == strings_view(parts@),
            ps == split_spec(normalise_spec(v@), '.'),
            out@.map_values(|n: u64| n as nat) == numbers_of(ps.subrange(0, k as int)),
    {
        assert(ps.subrange(0, k + 1).drop_last() =~= ps.subrange(0, k as int));
        assert(ps.subrange(0, k + 1).last() == parts@[k as int]@);
        let cs = chars_of(parts[k].as_str());
        let ghost before = out@.map_values(|n: u64| n as nat);
        match parse_u64(&cs) {
            Some(x) => {
                out.push(x);
                assert(out@.map_values(|n: u64| n as nat) =~= before.push(x as nat));
            },
            None => {},
        }
    }
    assert(ps.subrange(0, ps.len() as int) =~= ps);
    out
}

/// Compares two version tags by their numeric components, padding the
/// shorter with zeros (and both to at least three components).
pub fn cmp_semver(a: &str, b: &str) -> (r: Ordering)
    ensures
        r == semver_order(a@, b@),
{
    let pa = version_components(a);
    let pb = version_components(b);
    let ghost sa = pa@.map_values(|n: u64| n as nat);
    let ghost sb = pb@.map_values(|n: u64| n as nat);
    let mut n: usize = if pa.len() >= pb.len() {
        pa.len()
    } else {
        pb.len()
    };
    if n < 3 {
        n = 3;
    }
    assert(n as int == max3(sa.len() as int, sb.len() as int));
    let mut i: usize = 0;
    while i < n
        invariant
            sa == pa@.map_values(|n: u64| n as nat),
            sb == pb@.map_values(|n: u64| n as nat),
            sa == version_numbers(a@),
            sb == version_numbers(b@),
            n as int == max3(sa.len() as int, sb.len() as int),
            i <= n,
            compare_from(sa, sb, 0, n as int) == compare_from(sa, sb, i as int, n as int),
        decreases n - i,
    {
        let x: u64 = if i < pa.len() {
            pa[i]
        } else {
            0
        };
        let y: u64 = if i < pb.len() {
            pb[i]
        } else {
            0
        };
        assert(x as nat == component(sa, i as int));
        assert(y as nat == component(sb, i as int));
        if x > y {
            return Ordering::Greater;
        }
        if x < y {
            return Ordering::Less;
        }
        i = i + 1;
    }
    Ordering::Equal
}

/// Whether a check is due: always when forced, when no interval is set, or
/// when the last check is unknown; otherwise once `elapsed_minutes` reaches
/// the interval.
pub open spec fn check_due(force: bool, min_interval: i64, elapsed_minutes: Option<i64>) -> bool {
    force || min_interval <= 0 || match elapsed_minutes {
        None => true,
        Some(m) => m >= min_interval,
    }
}

/// Decides whether to check now, from the minutes since the last check.
pub fn should_check(force: bool, min_interval: i64, elapsed_minutes: Option<i64>) -> (r: bool)
    ensures
        r == check_due(force, min_interval, elapsed_minutes),
{
    if force || min_interval <= 0 {
        return true;
    }
    match elapsed_minutes {
        None => true,
        Some(m) => m >= min_interval,
    }
}

/// Relies on chrono: parses an RFC 3339 time stamp as `DateTime<Utc>` and
/// gives the whole minutes from it to `Utc::now()`; `None` where it does not
/// parse. The result depends on the clock.
#[verifier::external_body]
fn minutes_since(stamp: &str) -> (r: Option<i64>) {
    stamp.parse::<chrono::DateTime<chrono::Utc>>().ok().map(|last| (chrono::Utc::now() - last).num_minutes())
}

/// Relies on chrono's `Utc::now` and `to_rfc3339`: the current time as an
/// RFC 3339 time stamp. The result depends on the clock.
#[verifier::external_body]
pub fn now_stamp() -> (r: String) {
    chrono::Utc::now().to_rfc3339()
}

impl UpdateChecker {
    /// Whether a check is due, given the stamp of the last one (if any was
    /// recorded). Always due when forced, without an interval, or without a
    /// readable stamp.
    pub fn should_check_now(&self, force: bool, last_checked: Option<&str>) -> (r: bool)
        ensures
            force || self.min_interval_minutes <= 0 || last_checked is None ==> r,
    {
        let elapsed = match last_checked {
            Some(stamp) => minutes_since(stamp),
            None => None,
        };
        should_check(force, self.min_interval_minutes, elapsed)
    }

    /// The releases endpoint: every release when pre-releases count, else
    /// the latest one.
    pub fn release_url(&self) -> (r: String)
        ensures
            r@ == "https://api.github.com/repos/"@ + self.owner@ + "/"@ + self.repo@ + (if self.check_prereleases {
                "/releases"@
            } else {
                "/releases/latest"@
            }),
    {
        let base = String::from_str("https://api.github.com/repos/").concat(self.owner.as_str()).concat("/").concat(
            self.repo.as_str(),
        );
        if self.check_prereleases {
            base.concat("/releases")
        } else {
            base.concat("/releases/latest")
        }
    }
}

/// Lexicographic order of two texts, character by character (the order of
/// Rust's `str` comparison).
pub open spec fn lex_order(a: Seq<char>, b: Seq<char>) -> Ordering
    decreases a.len(),
{
    if a.len() == 0 {
        if b.len() == 0 {
            Ordering::Equal
        } else {
            Ordering::Less
        }
    } else if b.len() == 0 {
        Ordering::Greater
    } else if a[0] < b[0] {
        Ordering::Less
    } else if a[0] > b[0] {
        Ordering::Greater
    } else {
        lex_order(a.drop_first(), b.drop_first())
    }
}

/// Compares two texts lexicographically.
pub fn compare_text(a: &String, b: &String) -> (r: Ordering)
    ensures
        r == lex_order(a@, b@),
{
    let x = chars_of(a.as_str());
    let y = chars_of(b.as_str());
    let mut i: usize = 0;
    assert(x@.subrange(0, x@.len() as int) =~= x@);
    assert(y@.subrange(0, y@.len() as int) =~= y@);
    while i < x.len() && i < y.len()
        invariant
            i <= x@.len(),
            i <= y@.len(),
            lex_order(a@, b@) == lex_order(x@.subrange(i as int, x@.len() as int), y@.subrange(i as int, y@.len() as int)),
        decreases x@.len() - i,
    {
        let ghost xs = x@.subrange(i as int, x@.len() as int);
        let ghost ys = y@.subrange(i as int, y@.len() as int);
        assert(xs.drop_first() =~= x@.subrange(i + 1, x@.len() as int));
        assert(ys.drop_first() =~= y@.subrange(i + 1, y@.len() as int));
        if x[i] < y[i] {
            return Ordering::Less;
        }
        if x[i] > y[i] {
            return Ordering::Greater;
        }
        i = i + 1;
    }
    if i < x.len() {
        Ordering::Greater
    } else if i < y.len() {
        Ordering::Less
    } else {
        Ordering::Equal
    }
}

/// A draft release is one whose `draft` member is `true`.
pub open spec fn is_draft(e: Json) -> bool {
    field_spec(e, "draft"@) == Some(Json::Bool(true))
}

/// A release's creation stamp, or empty.
pub open spec fn created_key(e: Json) -> Seq<char> {
    match text_of(field_spec(e, "created_at"@)) {
        Some(s) => s,
        None => Seq::empty(),
    }
}

/// The newest release that is not a draft: the greatest creation stamp,
/// the earliest listed among equals.
pub open spec fn newest(s: Seq<Json>) -> Option<Json>
    decreases s.len(),
{
    if s.len() == 0 {
        None
    } else {
        let best = newest(s.drop_last());
        let x = s.last();
        if is_draft(x) {
            best
        } else {
            match best {
                None => Some(x),
                Some(b) => if lex_order(created_key(x), created_key(b)) == Ordering::Greater {
                    Some(x)
                } else {
                    Some(b)
                },
            }
        }
    }
}

/// The text member `key` of `e`, or empty.
pub open spec fn text_or_empty(e: Json, key: Seq<char>) -> Seq<char> {
    match text_of(field_spec(e, key)) {
        Some(s) => s,
        None => Seq::empty(),
    }
}

/// The release that an entry describes, under the given entity tag.
pub open spec fn release_of(r: ReleaseInfo, e: Json, etag: Option<String>) -> bool {
    r.tag@ == text_or_empty(e, "tag_name"@) && r.html_url@ == text_or_empty(e, "html_url"@) && opt_view(r.etag)
        == opt_view(etag)
}

fn text_member(e: &Json, key: &str) -> (r: String)
    ensures
        r@ == text_or_empty(*e, key@),
{
    match text_in(member(Some(e), key)) {
        Some(s) => s,
        None => String::new(),
    }
}

fn copy_opt(o: &Option<String>) -> (r: Option<String>)
    ensures
        opt_view(r) == opt_view(*o),
{
    match o {
        Some(s) => Some(s.clone()),
        None => None,
    }
}

fn created_of(e: &Json) -> (r: String)
    ensures
        r@ == created_key(*e),
{
    text_member(e, "created_at")
}

fn draft(e: &Json) -> (r: bool)
    ensures
        r == is_draft(*e),
{
    match member(Some(e), "draft") {
        Some(Json::Bool(b)) => *b,
        _ => false,
    }
}

fn newest_release<'a>(entries: &'a Vec<Json>) -> (r: Option<&'a Json>)
    ensures
        opt_deref(r) == newest(entries@),
{
    let mut best: Option<usize> = None;
    for k in 0..entries.len()
        invariant
            match best {
                Some(b) => b < k && newest(entries@.subrange(0, k as int)) == Some(entries@[b as int]),
                None => newest(entries@.subrange(0, k as int)) is None,
            },
    {
        let ghost pre = entries@.subrange(0, k + 1);
        assert(pre.drop_last() =~= entries@.subrange(0, k as int));
        assert(pre.last() == entries@[k as int]);
        if !draft(&entries[k]) {
            match best {
                None => {
                    best = Some(k);
                },
                Some(b) => {
                    if matches!(compare_text(&created_of(&entries[k]), &created_of(&entries[b])), Ordering::Greater) {
                        best = Some(k);
                    }
                },
            }
        }
    }
    assert(entries@.subrange(0, entries@.len() as int) =~= entries@);
    match best {
        Some(b) => Some(&entries[b]),
        None => None,
    }
}

/// What a releases body names: for a listing, the newest release that is
/// not a draft; for the latest-release endpoint, the object itself.
pub open spec fn named_release(j: Json, prereleases: bool) -> Option<Json> {
    if prereleases {
        match j {
            Json::Array(a) => newest(a@),
            _ => None,
        }
    } else {
        Some(j)
    }
}

/// Reads the release that a parsed response body names. Fails where a
/// listing is not an array or holds no release that is not a draft.
pub fn release_from_json(j: &Json, prereleases: bool, etag: &Option<String>) -> (r: Result<ReleaseInfo, UpdateError>)
    ensures
        r is Ok <==> named_release(*j, prereleases) is Some,
        r matches Ok(info) ==> release_of(info, named_release(*j, prereleases)->0, *etag),
        r matches Err(e) ==> e is Json,
{
    if prereleases {
        match j {
            Json::Array(a) => match newest_release(a) {
                Some(e) => Ok(
                    ReleaseInfo {
                        tag: text_member(e, "tag_name"),
                        html_url: text_member(e, "html_url"),
                        etag: copy_opt(etag),
                    },
                ),
                None => Err(UpdateError::Json(String::from_str("no releases"))),
            },
            _ => Err(UpdateError::Json(String::from_str("expected array"))),
        }
    } else {
        Ok(ReleaseInfo { tag: text_member(j, "tag_name"), html_url: text_member(j, "html_url"), etag: copy_opt(etag) })
    }
}

/// Reads the release that a response body names. Fails where the body is
/// not JSON, where a listing is not an array, or where it holds no release
/// that is not a draft.
pub fn latest_release(body: &str, prereleases: bool, etag: &Option<String>) -> (r: Result<ReleaseInfo, UpdateError>)
    ensures
        r is Ok <==> (json_of_text(body@) matches Some(j) && named_release(j, prereleases) is Some),
        r matches Ok(info) ==> (json_of_text(body@) matches Some(j) && release_of(
            info,
            named_release(j, prereleases)->0,
            *etag,
        )),
        r matches Err(e) ==> e is Json,
{
    match parse_json(body) {
        Some(j) => release_from_json(&j, prereleases, etag),
        None => Err(UpdateError::Json(String::from_str("response is not JSON"))),
    }
}

/// The release, where its tag is set and it is newer than the running
/// version; otherwise nothing.
pub fn newer_release(latest: ReleaseInfo, current_version: &str) -> (r: Option<ReleaseInfo>)
    ensures
        r is Some <==> latest.tag@.len() > 0 && semver_order(latest.tag@, current_version@) == Ordering::Greater,
        r matches Some(info) ==> info == latest,
{
    if latest.tag.as_str().is_empty() {
        return None;
    }
    if matches!(cmp_semver(latest.tag.as_str(), current_version), Ordering::Greater) {
        Some(latest)
    } else {
        None
    }
}

impl UpdateError {
    pub open spec fn message_spec(&self) -> Seq<char> {
        match self {
            UpdateError::Network(m) => "Network error: "@ + m@,
            UpdateError::Http(code) => "http status: "@ + digits(*code as nat),
            UpdateError::Json(m) => "Parsing error: "@ + m@,
            UpdateError::Io(m) => "IO error: "@ + m@,
        }
    }

    /// The error as text.
    pub fn message(&self) -> (r: String)
        ensures
            r@ == self.message_spec(),
    {
        match self {
            UpdateError::Network(m) => String::from_str("Network error: ").concat(m.as_str()),
            UpdateError::Http(code) => {
                let mut ds: Vec<char> = Vec::new();
                push_digits(*code as u64, &mut ds);
                assert(ds@ =~= digits(*code as nat));
                String::from_str("http status: ").concat(string_from_chars(ds.as_slice()).as_str())
            },
            UpdateError::Json(m) => String::from_str("Parsing error: ").concat(m.as_str()),
            UpdateError::Io(m) => String::from_str("IO error: ").concat(m.as_str()),
        }
    }
}

} // verus!
