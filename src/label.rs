//! Labels: repository references, the label grammar, canonicalisation and
//! the shortest textual form of a label.
use vstd::prelude::*;

verus! {

// ---------------------------------------------------------------------------
// Character classes
// ---------------------------------------------------------------------------

/// An ASCII letter or digit.
pub open spec fn is_alnum(c: char) -> bool {
    ('a' <= c && c <= 'z') || ('A' <= c && c <= 'Z') || ('0' <= c && c <= '9')
}

/// A character allowed in a repository name.
pub open spec fn is_repo_char(c: char) -> bool {
    is_alnum(c) || c == '+' || c == '_' || c == '.' || c == '-'
}

/// A character allowed in a package segment.
pub open spec fn is_package_char(c: char) -> bool {
    is_alnum(c) || c == '!' || c == ' ' || c == '"' || c == '#' || c == '$' || c == '%' || c == '&'
        || c == '\'' || c == '(' || c == ')' || c == '*' || c == '+' || c == ',' || c == '-'
        || c == '.' || c == ';' || c == '<' || c == '=' || c == '>' || c == '?' || c == '@'
        || c == '[' || c == ']' || c == '^' || c == '_' || c == '`' || c == '{' || c == '|'
        || c == '}'
}

/// A character allowed in a target segment.
pub open spec fn is_target_char(c: char) -> bool {
    is_alnum(c) || c == '!' || c == '%' || c == '@' || c == '^' || c == '_' || c == '"' || c == '#'
        || c == '$' || c == '&' || c == '\'' || c == '(' || c == ')' || c == '*' || c == '-'
        || c == '+' || c == ',' || c == ';' || c == '<' || c == '=' || c == '>' || c == '?'
        || c == '[' || c == ']' || c == '{' || c == '|' || c == '}' || c == '~' || c == '.'
}

fn alnum(c: char) -> (r: bool)
    ensures
        r == is_alnum(c),
{
    ('a' <= c && c <= 'z') || ('A' <= c && c <= 'Z') || ('0' <= c && c <= '9')
}

fn repo_char(c: char) -> (r: bool)
    ensures
        r == is_repo_char(c),
{
    alnum(c) || c == '+' || c == '_' || c == '.' || c == '-'
}

fn package_char(c: char) -> (r: bool)
    ensures
        r == is_package_char(c),
{
    alnum(c) || c == '!' || c == ' ' || c == '"' || c == '#' || c == '$' || c == '%' || c == '&'
        || c == '\'' || c == '(' || c == ')' || c == '*' || c == '+' || c == ',' || c == '-'
        || c == '.' || c == ';' || c == '<' || c == '=' || c == '>' || c == '?' || c == '@'
        || c == '[' || c == ']' || c == '^' || c == '_' || c == '`' || c == '{' || c == '|'
        || c == '}'
}

fn target_char(c: char) -> (r: bool)
    ensures
        r == is_target_char(c),
{
    alnum(c) || c == '!' || c == '%' || c == '@' || c == '^' || c == '_' || c == '"' || c == '#'
        || c == '$' || c == '&' || c == '\'' || c == '(' || c == ')' || c == '*' || c == '-'
        || c == '+' || c == ',' || c == ';' || c == '<' || c == '=' || c == '>' || c == '?'
        || c == '[' || c == ']' || c == '{' || c == '|' || c == '}' || c == '~' || c == '.'
}

// ---------------------------------------------------------------------------
// The grammar, as spec functions
// ---------------------------------------------------------------------------

/// The two slash-separated parts of a label.
#[derive(Clone, Copy, PartialEq, Eq, Debug, Structural)]
pub enum Part {
    Package,
    Target,
}

pub open spec fn all_dots(seg: Seq<char>) -> bool {
    forall|k: int| 0 <= k < seg.len() ==> seg[k] == '.'
}

/// A character allowed in a segment of `part`.
pub open spec fn part_char(part: Part, c: char) -> bool {
    match part {
        Part::Package => is_package_char(c),
        Part::Target => is_target_char(c),
    }
}

/// One slash-free segment of a package or a target.
pub open spec fn segment_ok(part: Part, seg: Seq<char>) -> bool {
    seg.len() > 0 && (forall|k: int| 0 <= k < seg.len() ==> part_char(part, #[trigger] seg[k]))
        && match part {
        Part::Package => !all_dots(seg),
        Part::Target => seg != seq!['.'] && seg != seq!['.', '.'],
    }
}

/// Every segment of `s` from `seg_start` on is valid, scanning from `i`
/// (no `/` lies in `s[seg_start..i]`).
pub open spec fn segments_from(part: Part, s: Seq<char>, seg_start: int, i: int) -> bool
    decreases s.len() - i,
{
    if i >= s.len() {
        segment_ok(part, s.subrange(seg_start, s.len() as int))
    } else if s[i] == '/' {
        segment_ok(part, s.subrange(seg_start, i)) && segments_from(part, s, i + 1, i + 1)
    } else {
        segments_from(part, s, seg_start, i + 1)
    }
}

pub open spec fn segments_ok(part: Part, s: Seq<char>) -> bool {
    segments_from(part, s, 0, 0)
}

/// A package path: empty (the root package) or valid segments.
pub open spec fn valid_package(p: Seq<char>) -> bool {
    p.len() == 0 || segments_ok(Part::Package, p)
}

/// A target name: one or more valid segments.
pub open spec fn valid_target(t: Seq<char>) -> bool {
    segments_ok(Part::Target, t)
}

/// A repository name.
pub open spec fn valid_repo_name(n: Seq<char>) -> bool {
    forall|k: int| 0 <= k < n.len() ==> is_repo_char(#[trigger] n[k])
}

/// The end of the run of repository characters that starts at `i`.
pub open spec fn repo_name_end(s: Seq<char>, i: int) -> int
    decreases s.len() - i,
{
    if 0 <= i < s.len() && is_repo_char(s[i]) {
        repo_name_end(s, i + 1)
    } else {
        i
    }
}

/// The first `:` at or after `i`, or the end of `s`.
pub open spec fn colon_at_or_after(s: Seq<char>, i: int) -> int
    decreases s.len() - i,
{
    if 0 <= i < s.len() && s[i] != ':' {
        colon_at_or_after(s, i + 1)
    } else {
        i
    }
}

/// The last `/` before `i`, or -1.
pub open spec fn last_slash_before(s: Seq<char>, i: int) -> int
    decreases i,
{
    if i <= 0 {
        -1
    } else if s[i - 1] == '/' {
        i - 1
    } else {
        last_slash_before(s, i - 1)
    }
}

/// What follows the last `/` of a package path (all of it if it has none).
pub open spec fn last_segment(p: Seq<char>) -> Seq<char> {
    p.subrange(last_slash_before(p, p.len() as int) + 1, p.len() as int)
}

/// A repository as written: apparent (`@name`) or canonical (`@@name`).
pub enum RepoModel {
    Apparent(Seq<char>),
    Canonical(Seq<char>),
}

impl RepoModel {
    pub open spec fn name(self) -> Seq<char> {
        match self {
            RepoModel::Apparent(n) => n,
            RepoModel::Canonical(n) => n,
        }
    }

    /// `@name` or `@@name`.
    pub open spec fn text(self) -> Seq<char> {
        match self {
            RepoModel::Apparent(n) => seq!['@'] + n,
            RepoModel::Canonical(n) => seq!['@', '@'] + n,
        }
    }
}

/// A label with all three parts known.
pub struct LabelModel {
    pub repo: RepoModel,
    pub package: Seq<char>,
    pub target: Seq<char>,
}

/// What a label string fixes by itself; the rest comes from a context label.
pub struct RelativeModel {
    pub repo: Option<RepoModel>,
    pub package: Option<Seq<char>>,
    pub target: Seq<char>,
}

/// The repository written before `//`, and where it ends.
pub open spec fn repo_prefix(s: Seq<char>) -> (Option<RepoModel>, int) {
    if s.len() >= 2 && s[0] == '@' && s[1] == '@' {
        let e = repo_name_end(s, 2);
        (Some(RepoModel::Canonical(s.subrange(2, e))), e)
    } else if s.len() >= 1 && s[0] == '@' {
        let e = repo_name_end(s, 1);
        (Some(RepoModel::Apparent(s.subrange(1, e))), e)
    } else {
        (None, 0)
    }
}

/// The label starts with an optional repository and `//`.
pub open spec fn is_absolute(s: Seq<char>) -> bool {
    let e = repo_prefix(s).1;
    e + 2 <= s.len() && s[e] == '/' && s[e + 1] == '/'
}

/// The target that a label without `:target` stands for.
pub open spec fn shorthand_target(repo: Option<RepoModel>, p: Seq<char>) -> Seq<char> {
    match repo {
        Some(r) => if p.len() == 0 {
            r.name()
        } else {
            last_segment(p)
        },
        None => last_segment(p),
    }
}

/// `[@repo|@@repo]//package[:target]`.
pub open spec fn parse_absolute(s: Seq<char>) -> Option<RelativeModel> {
    let (repo, e) = repo_prefix(s);
    let c = colon_at_or_after(s, e + 2);
    let p = s.subrange(e + 2, c);
    if !valid_package(p) {
        None
    } else if c < s.len() {
        let t = s.subrange(c + 1, s.len() as int);
        if valid_target(t) {
            Some(RelativeModel { repo, package: Some(p), target: t })
        } else {
            None
        }
    } else {
        Some(RelativeModel { repo, package: Some(p), target: shorthand_target(repo, p) })
    }
}

/// `[:]target`, in the package of the context.
pub open spec fn parse_target_only(s: Seq<char>) -> Option<RelativeModel> {
    let t = if s.len() > 0 && s[0] == ':' {
        s.subrange(1, s.len() as int)
    } else {
        s
    };
    if valid_target(t) {
        Some(RelativeModel { repo: None, package: None, target: t })
    } else {
        None
    }
}

/// The meaning of a label string, or `None` where the grammar rejects it.
pub open spec fn parse_relative(s: Seq<char>) -> Option<RelativeModel> {
    if is_absolute(s) {
        parse_absolute(s)
    } else {
        parse_target_only(s)
    }
}

/// Fills in what a parsed label leaves open from the context label.
pub open spec fn resolve(rel: RelativeModel, context: LabelModel) -> LabelModel {
    LabelModel {
        repo: match rel.repo {
            Some(r) => r,
            None => context.repo,
        },
        package: match rel.package {
            Some(p) => p,
            None => context.package,
        },
        target: rel.target,
    }
}

/// The label `s` names relative to `context`, if `s` is a label.
pub open spec fn parse_spec(s: Seq<char>, context: LabelModel) -> Option<LabelModel> {
    match parse_relative(s) {
        Some(rel) => Some(resolve(rel, context)),
        None => None,
    }
}

/// The shortest text that parses back to the label.
pub open spec fn label_text(l: LabelModel) -> Seq<char> {
    let r = l.repo.text();
    if l.package.len() == 0 && l.target == l.repo.name() {
        r + seq!['/', '/']
    } else if l.package.len() > 0 && last_segment(l.package) == l.target {
        r + seq!['/', '/'] + l.package
    } else {
        r + seq!['/', '/'] + l.package + seq![':'] + l.target
    }
}

/// A label whose parts the grammar accepts.
pub open spec fn valid_label(l: LabelModel) -> bool {
    valid_repo_name(l.repo.name()) && valid_package(l.package) && valid_target(l.target)
}


// ---------------------------------------------------------------------------
// Lemmas on the grammar
// ---------------------------------------------------------------------------

proof fn lemma_repo_name_end(s: Seq<char>, i: int, k: int)
    requires
        0 <= i <= k <= s.len(),
        forall|m: int| i <= m < k ==> is_repo_char(#[trigger] s[m]),
        k == s.len() || !is_repo_char(s[k]),
    ensures
        repo_name_end(s, i) == k,
    decreases k - i,
{
    if i < k {
        lemma_repo_name_end(s, i + 1, k);
    }
}

proof fn lemma_colon_at_or_after(s: Seq<char>, i: int, k: int)
    requires
        0 <= i <= k <= s.len(),
        forall|m: int| i <= m < k ==> #[trigger] s[m] != ':',
        k == s.len() || s[k] == ':',
    ensures
        colon_at_or_after(s, i) == k,
    decreases k - i,
{
    if i < k {
        lemma_colon_at_or_after(s, i + 1, k);
    }
}

/// Valid segments hold no `:`.
proof fn lemma_segments_no_colon(part: Part, s: Seq<char>, st: int, i: int)
    requires
        0 <= st <= i <= s.len(),
        segments_from(part, s, st, i),
    ensures
        forall|m: int| st <= m < s.len() ==> #[trigger] s[m] != ':',
    decreases s.len() - i,
{
    if i >= s.len() {
        let seg = s.subrange(st, s.len() as int);
        assert forall|m: int| st <= m < s.len() implies #[trigger] s[m] != ':' by {
            assert(seg[m - st] == s[m]);
        }
    } else if s[i] == '/' {
        let seg = s.subrange(st, i);
        lemma_segments_no_colon(part, s, i + 1, i + 1);
        assert forall|m: int| st <= m < s.len() implies #[trigger] s[m] != ':' by {
            if m < i {
                assert(seg[m - st] == s[m]);
            }
        }
    } else {
        lemma_segments_no_colon(part, s, st, i + 1);
    }
}

/// Printing a valid label and parsing the text back, against any context,
/// gives the same label: the text names its repository and package itself,
/// and the shortened forms are printed only where parsing restores the
/// target that they leave out.
pub proof fn lemma_label_round_trip(l: LabelModel, context: LabelModel)
    requires
        valid_label(l),
    ensures
        parse_spec(label_text(l), context) == Some(l),
{
    let n = l.repo.name();
    let p = l.package;
    let t = l.target;
    let r = l.repo.text();
    let d = label_text(l);
    let e = r.len() as int;
    let ss = seq!['/', '/'];
    // The text is `r // rest`.
    assert(d.subrange(0, e) =~= r);
    assert(d[e] == '/' && d[e + 1] == '/');
    if p.len() > 0 {
        lemma_segments_no_colon(Part::Package, p, 0, 0);
    }
    // The repository part.
    match l.repo {
        RepoModel::Canonical(_) => {
            assert forall|m: int| 2 <= m < e implies is_repo_char(#[trigger] d[m]) by {
                assert(d[m] == n[m - 2]);
            }
            lemma_repo_name_end(d, 2, e);
            assert(d.subrange(2, e) =~= n);
        },
        RepoModel::Apparent(_) => {
            assert(d[1] != '@') by {
                if n.len() > 0 {
                    assert(d[1] == n[0]);
                    assert(is_repo_char(n[0]));
                }
            }
            assert forall|m: int| 1 <= m < e implies is_repo_char(#[trigger] d[m]) by {
                assert(d[m] == n[m - 1]);
            }
            lemma_repo_name_end(d, 1, e);
            assert(d.subrange(1, e) =~= n);
        },
    }
    assert(repo_prefix(d) == (Some(l.repo), e));
    assert(is_absolute(d));
    if p.len() == 0 && t == n {
        assert(d =~= r + ss);
        lemma_colon_at_or_after(d, e + 2, d.len() as int);
        assert(d.subrange(e + 2, d.len() as int) =~= p);
    } else if p.len() > 0 && last_segment(p) == t {
        assert(d =~= r + ss + p);
        assert forall|m: int| e + 2 <= m < d.len() implies #[trigger] d[m] != ':' by {
            assert(d[m] == p[m - e - 2]);
        }
        lemma_colon_at_or_after(d, e + 2, d.len() as int);
        assert(d.subrange(e + 2, d.len() as int) =~= p);
    } else {
        let c = e + 2 + p.len();
        assert(d =~= r + ss + p + seq![':'] + t);
        assert forall|m: int| e + 2 <= m < c implies #[trigger] d[m] != ':' by {
            assert(d[m] == p[m - e - 2]);
        }
        assert(d[c] == ':');
        lemma_colon_at_or_after(d, e + 2, c);
        assert(d.subrange(e + 2, c) =~= p);
        assert(d.subrange(c + 1, d.len() as int) =~= t);
    }
}

// ---------------------------------------------------------------------------
// Scanning
// ---------------------------------------------------------------------------

/// The characters of `s`, one by one.
pub(crate) fn chars_of(s: &str) -> (r: Vec<char>)
    ensures
        r@ == s@,
{
    let n = s.unicode_len();
    let mut v: Vec<char> = Vec::new();
    let mut i: usize = 0;
    while i < n
        invariant
            n == s@.len(),
            i <= n,
            v@ == s@.subrange(0, i as int),
        decreases n - i,
    {
        v.push(s.get_char(i));
        i += 1;
    }
    assert(v@ =~= s@);
    v
}

fn repo_name_end_at(cs: &Vec<char>, i: usize) -> (r: usize)
    requires
        i <= cs.len(),
    ensures
        r == repo_name_end(cs@, i as int),
        i <= r <= cs.len(),
{
    let mut k = i;
    while k < cs.len() && repo_char(cs[k])
        invariant
            i <= k <= cs.len(),
            repo_name_end(cs@, i as int) == repo_name_end(cs@, k as int),
        decreases cs.len() - k,
    {
        k += 1;
    }
    k
}

fn colon_at_or_after_exec(cs: &Vec<char>, i: usize) -> (r: usize)
    requires
        i <= cs.len(),
    ensures
        r == colon_at_or_after(cs@, i as int),
        i <= r <= cs.len(),
{
    let mut k = i;
    while k < cs.len() && cs[k] != ':'
        invariant
            i <= k <= cs.len(),
            colon_at_or_after(cs@, i as int) == colon_at_or_after(cs@, k as int),
        decreases cs.len() - k,
    {
        k += 1;
    }
    k
}

/// The last `/` in `cs[a..b]`, as an index into `cs`.
pub(crate) fn last_slash_in(cs: &Vec<char>, a: usize, b: usize) -> (r: Option<usize>)
    requires
        a <= b <= cs.len(),
    ensures
        ({
            let p = cs@.subrange(a as int, b as int);
            match r {
                Some(k) => a <= k < b && last_slash_before(p, p.len() as int) == k - a,
                None => last_slash_before(p, p.len() as int) == -1,
            }
        }),
{
    let ghost p = cs@.subrange(a as int, b as int);
    let mut k = b;
    while k > a
        invariant
            a <= k <= b <= cs.len(),
            p == cs@.subrange(a as int, b as int),
            last_slash_before(p, p.len() as int) == last_slash_before(p, k - a),
        decreases k - a,
    {
        assert(p[k - a - 1] == cs@[k - 1]);
        if cs[k - 1] == '/' {
            return Some(k - 1);
        }
        k -= 1;
    }
    None
}

fn part_char_exec(part: Part, c: char) -> (r: bool)
    ensures
        r == part_char(part, c),
{
    match part {
        Part::Package => package_char(c),
        Part::Target => target_char(c),
    }
}

/// Whether `cs[a..b]` is one valid segment.
fn segment_ok_exec(cs: &Vec<char>, a: usize, b: usize, part: Part) -> (r: bool)
    requires
        a <= b <= cs.len(),
    ensures
        r == segment_ok(part, cs@.subrange(a as int, b as int)),
{
    let ghost seg = cs@.subrange(a as int, b as int);
    if a == b {
        return false;
    }
    let mut k = a;
    let mut ok = true;
    let mut dots = true;
    while k < b
        invariant
            a <= k <= b <= cs.len(),
            seg == cs@.subrange(a as int, b as int),
            ok == (forall|m: int| 0 <= m < k - a ==> part_char(part, #[trigger] seg[m])),
            dots == (forall|m: int| 0 <= m < k - a ==> #[trigger] seg[m] == '.'),
        decreases b - k,
    {
        let c = cs[k];
        assert(seg[k - a] == c);
        ok = ok && part_char_exec(part, c);
        dots = dots && c == '.';
        k += 1;
    }
    match part {
        Part::Package => ok && !dots,
        Part::Target => {
            let one = b - a == 1 && cs[a] == '.';
            let two = b - a == 2 && cs[a] == '.' && cs[a + 1] == '.';
            if one {
                assert(seg =~= seq!['.']);
            }
            if two {
                assert(seg =~= seq!['.', '.']);
            }
            assert(seg == seq!['.'] ==> seg.len() == 1 && seg[0] == '.');
            assert(seg == seq!['.', '.'] ==> seg.len() == 2 && seg[0] == '.' && seg[1] == '.');
            ok && !one && !two
        },
    }
}

/// Whether `cs[a..b]` is a sequence of valid segments.
fn segments_ok_exec(cs: &Vec<char>, a: usize, b: usize, part: Part) -> (r: bool)
    requires
        a <= b <= cs.len(),
    ensures
        r == segments_ok(part, cs@.subrange(a as int, b as int)),
{
    let ghost s = cs@.subrange(a as int, b as int);
    let mut st = a;
    let mut i = a;
    while i < b
        invariant
            a <= st <= i <= b <= cs.len(),
            s == cs@.subrange(a as int, b as int),
            segments_from(part, s, st - a, i - a) == segments_ok(part, s),
        decreases b - i,
    {
        assert(s[i - a] == cs@[i as int]);
        if cs[i] == '/' {
            assert(s.subrange(st - a, i - a) =~= cs@.subrange(st as int, i as int));
            if !segment_ok_exec(cs, st, i, part) {
                return false;
            }
            st = i + 1;
        }
        i += 1;
    }
    assert(s.subrange(st - a, s.len() as int) =~= cs@.subrange(st as int, b as int));
    segment_ok_exec(cs, st, b, part)
}

/// Where the parts of a parsed label lie in its text.
enum RepoSpan {
    Absent,
    Apparent(usize, usize),
    Canonical(usize, usize),
}

struct Spans {
    repo: RepoSpan,
    package: Option<(usize, usize)>,
    target: (usize, usize),
}

spec fn spans_model(s: Seq<char>, sp: Spans) -> RelativeModel {
    RelativeModel {
        repo: match sp.repo {
            RepoSpan::Absent => None,
            RepoSpan::Apparent(a, b) => Some(RepoModel::Apparent(s.subrange(a as int, b as int))),
            RepoSpan::Canonical(a, b) => Some(RepoModel::Canonical(s.subrange(a as int, b as int))),
        },
        package: match sp.package {
            Some((a, b)) => Some(s.subrange(a as int, b as int)),
            None => None,
        },
        target: s.subrange(sp.target.0 as int, sp.target.1 as int),
    }
}

spec fn spans_within(sp: Spans, n: nat) -> bool {
    &&& match sp.repo {
        RepoSpan::Absent => true,
        RepoSpan::Apparent(a, b) => a <= b <= n,
        RepoSpan::Canonical(a, b) => a <= b <= n,
    }
    &&& match sp.package {
        Some((a, b)) => a <= b <= n,
        None => true,
    }
    &&& sp.target.0 <= sp.target.1 <= n
}

fn parse_spans(cs: &Vec<char>) -> (r: Option<Spans>)
    ensures
        r is Some <==> parse_relative(cs@) is Some,
        r is Some ==> spans_within(r.unwrap(), cs.len() as nat) && spans_model(cs@, r.unwrap())
            == parse_relative(cs@).unwrap(),
{
    let ghost s = cs@;
    let n = cs.len();
    let (repo, e) = if n >= 2 && cs[0] == '@' && cs[1] == '@' {
        let e = repo_name_end_at(cs, 2);
        (RepoSpan::Canonical(2, e), e)
    } else if n >= 1 && cs[0] == '@' {
        let e = repo_name_end_at(cs, 1);
        (RepoSpan::Apparent(1, e), e)
    } else {
        (RepoSpan::Absent, 0)
    };
    assert(repo_prefix(s).1 == e);
    assert(repo_prefix(s).0 == spans_model(s, Spans { repo, package: None, target: (0, 0) }).repo);
    if e < n && n - e >= 2 && cs[e] == '/' && cs[e + 1] == '/' {
        assert(is_absolute(s));
        let c = colon_at_or_after_exec(cs, e + 2);
        let ghost p = s.subrange(e + 2, c as int);
        if !(c == e + 2 || segments_ok_exec(cs, e + 2, c, Part::Package)) {
            return None;
        }
        if c < n {
            if segments_ok_exec(cs, c + 1, n, Part::Target) {
                assert(s.subrange(c + 1, s.len() as int) =~= cs@.subrange(c + 1, n as int));
                Some(Spans { repo, package: Some((e + 2, c)), target: (c + 1, n) })
            } else {
                None
            }
        } else {
            let target = match repo {
                RepoSpan::Apparent(a, b) if c == e + 2 => (a, b),
                RepoSpan::Canonical(a, b) if c == e + 2 => (a, b),
                _ => match last_slash_in(cs, e + 2, c) {
                    Some(k) => {
                        assert(last_segment(p) =~= s.subrange(k + 1, c as int));
                        (k + 1, c)
                    },
                    None => {
                        assert(last_segment(p) =~= s.subrange(e + 2, c as int));
                        (e + 2, c)
                    },
                },
            };
            Some(Spans { repo, package: Some((e + 2, c)), target })
        }
    } else {
        let start: usize = if n > 0 && cs[0] == ':' {
            1
        } else {
            0
        };
        assert(start == 0 ==> s =~= s.subrange(0, n as int));
        if segments_ok_exec(cs, start, n, Part::Target) {
            Some(Spans { repo: RepoSpan::Absent, package: None, target: (start, n) })
        } else {
            None
        }
    }
}

// ---------------------------------------------------------------------------
// Repositories and labels
// ---------------------------------------------------------------------------

pub(crate) fn str_eq(a: &str, b: &str) -> (r: bool)
    ensures
        r == (a@ == b@),
{
    a.to_owned() == b.to_owned()
}

/// A repository name as written by a dependent repository. The empty name
/// is the main repository.
#[derive(Clone, Debug, PartialEq, Eq, Hash)]
pub struct ApparentRepo(String);

/// A globally unique repository name. The empty name is the main repository.
#[derive(Clone, Debug, PartialEq, Eq, Hash)]
pub struct CanonicalRepo(String);

/// An apparent or a canonical repository name.
#[derive(Clone, Debug, PartialEq, Eq, Hash)]
pub enum Repo {
    Apparent(ApparentRepo),
    Canonical(CanonicalRepo),
}

impl View for ApparentRepo {
    type V = Seq<char>;

    closed spec fn view(&self) -> Seq<char> {
        self.0@
    }
}

impl View for CanonicalRepo {
    type V = Seq<char>;

    closed spec fn view(&self) -> Seq<char> {
        self.0@
    }
}

/// What a label needs of its repository part.
pub trait RepoRef: Sized {
    spec fn model(&self) -> RepoModel;

    /// The repository's name, without `@` or `@@`.
    fn name(&self) -> (r: &str)
        ensures
            r@ == self.model().name(),
    ;

    /// `@name` or `@@name`.
    fn to_string(&self) -> (r: String)
        ensures
            r@ == self.model().text(),
    ;

    fn to_repo(&self) -> (r: Repo)
        ensures
            r.repo_model() == self.model(),
    ;

    fn duplicate(&self) -> (r: Self)
        ensures
            r.model() == self.model(),
    ;
}

impl ApparentRepo {
    pub fn new(name: &str) -> (r: ApparentRepo)
        ensures
            r@ == name@,
    {
        ApparentRepo(name.to_owned())
    }

    pub fn as_str(&self) -> (r: &str)
        ensures
            r@ == self@,
    {
        self.0.as_str()
    }

    pub fn into_name(self) -> (r: String)
        ensures
            r@ == self@,
    {
        self.0
    }
}

impl RepoRef for ApparentRepo {
    open spec fn model(&self) -> RepoModel {
        RepoModel::Apparent(self@)
    }

    fn name(&self) -> (r: &str) {
        self.0.as_str()
    }

    fn to_string(&self) -> (r: String) {
        let mut out = "@".to_owned();
        out.append(self.0.as_str());
        proof {
            reveal_strlit("@");
        }
        out
    }

    fn to_repo(&self) -> (r: Repo) {
        Repo::Apparent(self.duplicate())
    }

    fn duplicate(&self) -> (r: Self) {
        ApparentRepo(self.0.clone())
    }
}

impl CanonicalRepo {
    pub fn new(name: &str) -> (r: CanonicalRepo)
        ensures
            r@ == name@,
    {
        CanonicalRepo(name.to_owned())
    }

    pub fn as_str(&self) -> (r: &str)
        ensures
            r@ == self@,
    {
        self.0.as_str()
    }

    pub fn into_name(self) -> (r: String)
        ensures
            r@ == self@,
    {
        self.0
    }
}

impl RepoRef for CanonicalRepo {
    open spec fn model(&self) -> RepoModel {
        RepoModel::Canonical(self@)
    }

    fn name(&self) -> (r: &str) {
        self.0.as_str()
    }

    fn to_string(&self) -> (r: String) {
        let mut out = "@@".to_owned();
        out.append(self.0.as_str());
        proof {
            reveal_strlit("@@");
        }
        out
    }

    fn to_repo(&self) -> (r: Repo) {
        Repo::Canonical(self.duplicate())
    }

    fn duplicate(&self) -> (r: Self) {
        CanonicalRepo(self.0.clone())
    }
}

impl Repo {
    pub open spec fn repo_model(&self) -> RepoModel {
        match self {
            Repo::Apparent(r) => RepoModel::Apparent(r@),
            Repo::Canonical(r) => RepoModel::Canonical(r@),
        }
    }

    pub fn into_name(self) -> (r: String)
        ensures
            r@ == self.model().name(),
    {
        match self {
            Repo::Apparent(r) => r.into_name(),
            Repo::Canonical(r) => r.into_name(),
        }
    }

    pub fn as_str(&self) -> (r: &str)
        ensures
            r@ == self.model().name(),
    {
        self.name()
    }
}

impl RepoRef for Repo {
    open spec fn model(&self) -> RepoModel {
        self.repo_model()
    }

    fn name(&self) -> (r: &str) {
        match self {
            Repo::Apparent(r) => r.name(),
            Repo::Canonical(r) => r.name(),
        }
    }

    fn to_string(&self) -> (r: String) {
        match self {
            Repo::Apparent(r) => r.to_string(),
            Repo::Canonical(r) => r.to_string(),
        }
    }

    fn to_repo(&self) -> (r: Repo) {
        self.duplicate()
    }

    fn duplicate(&self) -> (r: Self) {
        match self {
            Repo::Apparent(r) => Repo::Apparent(r.duplicate()),
            Repo::Canonical(r) => Repo::Canonical(r.duplicate()),
        }
    }
}

/// The main repository, `@@`.
pub fn main_repo() -> (r: CanonicalRepo)
    ensures
        r@ == Seq::<char>::empty(),
{
    CanonicalRepo(String::new())
}

/// The root package of the main repository, `@@//`.
pub fn main_repo_root() -> (r: CanonicalLabel)
    ensures
        r@ == (LabelModel {
            repo: RepoModel::Canonical(Seq::empty()),
            package: Seq::empty(),
            target: Seq::empty(),
        }),
{
    Label { repo: main_repo(), package: String::new(), target: String::new() }
}

/// A label, `[@|@@]repo//package:target`, naming a target of a repository.
#[derive(Clone, Debug, PartialEq, Eq, Hash)]
pub struct Label<R> {
    /// The repository, apparent or canonical.
    pub repo: R,
    /// The package path, e.g. `my/package`.
    pub package: String,
    /// The target name, e.g. `my_target`.
    pub target: String,
}

/// A label whose repository is canonical: `@@repo//package:target`.
pub type CanonicalLabel = Label<CanonicalRepo>;

/// A label whose repository is apparent: `@repo//package:target`.
pub type ApparentLabel = Label<ApparentRepo>;

impl<R: RepoRef> View for Label<R> {
    type V = LabelModel;

    open spec fn view(&self) -> LabelModel {
        LabelModel { repo: self.repo.model(), package: self.package@, target: self.target@ }
    }
}

/// `external/<repo>`, or empty for the main repository.
pub open spec fn workspace_root_text(name: Seq<char>) -> Seq<char> {
    if name.len() == 0 {
        Seq::empty()
    } else {
        "external/"@ + name
    }
}

/// `Label("<repo>//<package>:<target>")`.
pub open spec fn label_debug_text(l: LabelModel) -> Seq<char> {
    "Label(\""@ + l.repo.text() + "//"@ + l.package + ":"@ + l.target + "\")"@
}

impl<R: RepoRef> Label<R> {
    pub fn new(repo: R, package: &str, target: &str) -> (r: Label<R>)
        ensures
            r@ == (LabelModel { repo: repo.model(), package: package@, target: target@ }),
    {
        Label { repo, package: package.to_owned(), target: target.to_owned() }
    }

    /// The target name.
    pub fn name(&self) -> (r: &str)
        ensures
            r@ == self.target@,
    {
        self.target.as_str()
    }

    /// The package path.
    pub fn package(&self) -> (r: &str)
        ensures
            r@ == self.package@,
    {
        self.package.as_str()
    }

    /// The repository part.
    pub fn repo(&self) -> (r: &R)
        ensures
            r == &self.repo,
    {
        &self.repo
    }

    /// The name of the repository in which the target is defined.
    pub fn repo_name(&self) -> (r: &str)
        ensures
            r@ == self@.repo.name(),
    {
        self.repo.name()
    }

    /// The execution-time path of the label's repository.
    pub fn workspace_root(&self) -> (r: String)
        ensures
            r@ == workspace_root_text(self@.repo.name()),
    {
        let name = self.repo.name();
        if name.unicode_len() == 0 {
            String::new()
        } else {
            let mut out = "external/".to_owned();
            out.append(name);
            out
        }
    }

    /// A label in the same package with another target.
    pub fn same_package_label(&self, name: String) -> (r: Label<R>)
        ensures
            r@ == (LabelModel { repo: self@.repo, package: self.package@, target: name@ }),
    {
        Label { repo: self.repo.duplicate(), package: self.package.clone(), target: name }
    }

    /// Resolves a label string relative to this label.
    pub fn relative(&self, rel_path: &str) -> (r: Result<Label<Repo>, ParseError>)
        ensures
            match r {
                Ok(l) => parse_spec(rel_path@, self@) == Some(l@),
                Err(e) => parse_spec(rel_path@, self@) is None && e.diagnosis_view() == diagnosis(
                    rel_path@,
                ) && e.position <= rel_path@.len() && e.found_view() == found_at(
                    rel_path@,
                    e.position as int,
                ),
            },
    {
        parse_label(rel_path, self)
    }

    /// The shortest text of the label: `@repo//` where the target is the
    /// repository's name in its root package, `@repo//a/b` where the target
    /// is the last segment of the package (`@repo//pkg` for `pkg:pkg`),
    /// `@repo//pkg:target` otherwise.
    pub fn to_string(&self) -> (r: String)
        ensures
            r@ == label_text(self@),
    {
        proof {
            reveal_strlit("//");
            reveal_strlit(":");
        }
        let mut out = self.repo.to_string();
        let pk = chars_of(self.package.as_str());
        let name = self.repo.name();
        if pk.len() == 0 && str_eq(self.target.as_str(), name) {
            out.append("//");
            return out;
        }
        assert(pk@.subrange(0, pk@.len() as int) =~= self.package@);
        if pk.len() > 0 {
            let start = match last_slash_in(&pk, 0, pk.len()) {
                Some(k) => k + 1,
                None => 0,
            };
            let last = self.package.as_str().substring_char(start, pk.len());
            if str_eq(last, self.target.as_str()) {
                out.append("//");
                out.append(self.package.as_str());
                return out;
            }
        }
        out.append("//");
        out.append(self.package.as_str());
        out.append(":");
        out.append(self.target.as_str());
        out
    }

    /// `Label("<repo>//<package>:<target>")`, every part written out.
    pub fn debug_string(&self) -> (r: String)
        ensures
            r@ == label_debug_text(self@),
    {
        let mut out = "Label(\"".to_owned();
        out.append(self.repo.to_string().as_str());
        out.append("//");
        out.append(self.package.as_str());
        out.append(":");
        out.append(self.target.as_str());
        out.append("\")");
        out
    }
}

impl Label<ApparentRepo> {
    /// Converts to a canonical label with `func`, which maps the apparent
    /// repository to its canonical name or fails with `None`.
    pub fn to_canonical<F>(self, func: F) -> (r: Option<CanonicalLabel>) where
        F: FnOnce(&ApparentRepo) -> Option<CanonicalRepo>,

        requires
            func.requires((&self.repo,)),
        ensures
            match r {
                Some(l) => func.ensures((&self.repo,), Some(l.repo)) && l.package == self.package
                    && l.target == self.target,
                None => func.ensures((&self.repo,), None),
            },
    {
        let Label { repo, package, target } = self;
        match func(&repo) {
            Some(canonical) => Some(Label { repo: canonical, package, target }),
            None => None,
        }
    }
}

impl Label<Repo> {
    /// Converts to a canonical label: a canonical repository is kept; an
    /// apparent one is mapped with `func`, and `None` comes back where
    /// `func` knows no canonical name for it.
    pub fn to_canonical<F>(self, func: F) -> (r: Option<CanonicalLabel>) where
        F: FnOnce(&ApparentRepo) -> Option<CanonicalRepo>,

        requires
            match self.repo {
                Repo::Apparent(a) => func.requires((&a,)),
                Repo::Canonical(_) => true,
            },
        ensures
            match self.repo {
                Repo::Apparent(a) => match r {
                    Some(l) => func.ensures((&a,), Some(l.repo)) && l.package == self.package
                        && l.target == self.target,
                    None => func.ensures((&a,), None),
                },
                Repo::Canonical(c) => r == Some(
                    Label { repo: c, package: self.package, target: self.target },
                ),
            },
    {
        let Label { repo, package, target } = self;
        match repo {
            Repo::Apparent(a) => match func(&a) {
                Some(canonical) => Some(Label { repo: canonical, package, target }),
                None => None,
            },
            Repo::Canonical(c) => Some(Label { repo: c, package, target }),
        }
    }
}

/// Parses a label string; what it leaves out comes from `context`. A
/// rejected string gets the error that `diagnosis` gives it, with the
/// character found at its position.
pub fn parse_label<R: RepoRef>(s: &str, context: &Label<R>) -> (r: Result<Label<Repo>, ParseError>)
    ensures
        match r {
            Ok(l) => parse_spec(s@, context@) == Some(l@),
            Err(e) => parse_spec(s@, context@) is None && e.diagnosis_view() == diagnosis(s@)
                && e.position <= s@.len() && e.found_view() == found_at(s@, e.position as int),
        },
{
    let cs = chars_of(s);
    match parse_spans(&cs) {
        None => Err(diagnose(s, &cs)),
        Some(sp) => {
            let repo = match sp.repo {
                RepoSpan::Absent => context.repo.to_repo(),
                RepoSpan::Apparent(a, b) => Repo::Apparent(
                    ApparentRepo(s.substring_char(a, b).to_owned()),
                ),
                RepoSpan::Canonical(a, b) => Repo::Canonical(
                    CanonicalRepo(s.substring_char(a, b).to_owned()),
                ),
            };
            let package = match sp.package {
                Some((a, b)) => s.substring_char(a, b).to_owned(),
                None => context.package.clone(),
            };
            let target = s.substring_char(sp.target.0, sp.target.1).to_owned();
            let l = Label { repo, package, target };
            assert(l@ == resolve(parse_relative(s@).unwrap(), context@));
            Ok(l)
        },
    }
}

// ---------------------------------------------------------------------------
// Parse errors
// ---------------------------------------------------------------------------

/// Something the grammar would have accepted where parsing stopped.
#[derive(Clone, Copy, Debug, PartialEq, Eq, Structural)]
pub enum Expected {
    Slash,
    Colon,
    At,
    EndOfInput,
    Label,
    RepositoryName,
    RepoCharacter,
    CanonicalRepo,
    ApparentRepo,
    PackageName,
    PackageCharacter,
    TargetName,
    TargetCharacter,
}

pub open spec fn expected_text(e: Expected) -> Seq<char> {
    match e {
        Expected::Slash => "'/'"@,
        Expected::Colon => "':'"@,
        Expected::At => "'@'"@,
        Expected::EndOfInput => "end of input"@,
        Expected::Label => "label"@,
        Expected::RepositoryName => "repository name"@,
        Expected::RepoCharacter => "valid repo character"@,
        Expected::CanonicalRepo => "canonical repo"@,
        Expected::ApparentRepo => "apparent repo"@,
        Expected::PackageName => "package name"@,
        Expected::PackageCharacter => "valid package character"@,
        Expected::TargetName => "target name"@,
        Expected::TargetCharacter => "valid target character"@,
    }
}

impl Expected {
    pub fn text(&self) -> (r: String)
        ensures
            r@ == expected_text(*self),
    {
        match self {
            Expected::Slash => "'/'".to_owned(),
            Expected::Colon => "':'".to_owned(),
            Expected::At => "'@'".to_owned(),
            Expected::EndOfInput => "end of input".to_owned(),
            Expected::Label => "label".to_owned(),
            Expected::RepositoryName => "repository name".to_owned(),
            Expected::RepoCharacter => "valid repo character".to_owned(),
            Expected::CanonicalRepo => "canonical repo".to_owned(),
            Expected::ApparentRepo => "apparent repo".to_owned(),
            Expected::PackageName => "package name".to_owned(),
            Expected::PackageCharacter => "valid package character".to_owned(),
            Expected::TargetName => "target name".to_owned(),
            Expected::TargetCharacter => "valid target character".to_owned(),
        }
    }
}

/// Why a label string was rejected.
#[derive(Clone, Debug, PartialEq, Eq)]
pub enum Reason {
    /// The text stops matching the grammar; these would have been accepted.
    Unexpected(Vec<Expected>),
    /// A target segment is `.` or `..`.
    DotTarget,
    /// A package segment is made of dots only.
    DotsPackage,
}

/// A rejected label string: where, what stood there, and why.
#[derive(Clone, Debug, PartialEq, Eq)]
pub struct ParseError {
    /// Character offset of the offending input.
    pub position: usize,
    /// The character found there, or `None` at the end of the input.
    pub found: Option<String>,
    pub reason: Reason,
}

/// The first `k` expectations, each followed by `, `.
pub open spec fn expected_prefix_text(es: Seq<Expected>, k: int) -> Seq<char>
    decreases k,
{
    if k <= 0 {
        Seq::empty()
    } else {
        expected_prefix_text(es, k - 1) + expected_text(es[k - 1]) + ", "@
    }
}

/// `A`, `A, or B`, `A, B, or C`, ...; `something else` for none.
pub open spec fn expected_list_text(es: Seq<Expected>) -> Seq<char> {
    if es.len() == 0 {
        "something else"@
    } else if es.len() == 1 {
        expected_text(es[0])
    } else {
        expected_prefix_text(es, es.len() - 1) + "or "@ + expected_text(es.last())
    }
}

pub open spec fn found_text(found: Option<Seq<char>>) -> Seq<char> {
    match found {
        Some(c) => "'"@ + c + "'"@,
        None => "end of input"@,
    }
}

/// The character at `i` as a one-character string, or `None` at the end.
pub open spec fn found_at(s: Seq<char>, i: int) -> Option<Seq<char>> {
    if 0 <= i < s.len() {
        Some(seq![s[i]])
    } else {
        None
    }
}

/// The message of a parse error.
pub open spec fn error_text(position: usize, found: Option<Seq<char>>, reason: Reason) -> Seq<char> {
    match reason {
        Reason::Unexpected(es) => "found "@ + found_text(found) + " expected "@
            + expected_list_text(es@),
        Reason::DotTarget => "Target can't include . or .."@,
        Reason::DotsPackage => "Package can't include an all-dots segment"@,
    }
}

impl ParseError {
    pub open spec fn found_view(&self) -> Option<Seq<char>> {
        match self.found {
            Some(f) => Some(f@),
            None => None,
        }
    }

    /// The message: `found ':' expected valid package character`, or the
    /// rule a segment breaks.
    pub fn to_string(&self) -> (r: String)
        ensures
            r@ == error_text(self.position, self.found_view(), self.reason),
    {
        match &self.reason {
            Reason::DotTarget => "Target can't include . or ..".to_owned(),
            Reason::DotsPackage => "Package can't include an all-dots segment".to_owned(),
            Reason::Unexpected(es) => {
                let mut out = "found ".to_owned();
                match &self.found {
                    Some(f) => {
                        out.append("'");
                        out.append(f.as_str());
                        out.append("'");
                    },
                    None => out.append("end of input"),
                }
                out.append(" expected ");
                if es.len() == 0 {
                    out.append("something else");
                } else if es.len() == 1 {
                    out.append(es[0].text().as_str());
                } else {
                    let ghost head = out@;
                    let mut k: usize = 0;
                    while k < es.len() - 1
                        invariant
                            k <= es.len() - 1,
                            es.len() >= 2,
                            out@ == head + expected_prefix_text(es@, k as int),
                        decreases es.len() - 1 - k,
                    {
                        out.append(es[k].text().as_str());
                        out.append(", ");
                        k += 1;
                    }
                    out.append("or ");
                    out.append(es[es.len() - 1].text().as_str());
                }
                out
            },
        }
    }
}

// ---------------------------------------------------------------------------
// The diagnosis of a rejected string
// ---------------------------------------------------------------------------
//
// The grammar is tried as ordered alternatives. Each alternative that stops
// records, at the position where it stopped, what would have been accepted
// there; the furthest position wins and equal positions pool their
// expectations. A labelled part of the grammar that stops right at its own
// start reports its label instead of its contents. A segment that breaks a
// rule on dots takes precedence over all of this.

/// The furthest stop of any alternative so far, with what it expected.
pub struct AltModel {
    pub has: bool,
    pub pos: int,
    pub expected: Seq<Expected>,
}

/// The first segment that breaks a rule on dots, if any.
pub struct EmitModel {
    pub has: bool,
    pub pos: int,
    pub dot_target: bool,
}

/// The error reported for a rejected string.
pub enum Diagnosis {
    Unexpected(int, Seq<Expected>),
    DotTarget(int),
    DotsPackage(int),
}

pub open spec fn no_alt() -> AltModel {
    AltModel { has: false, pos: 0, expected: Seq::empty() }
}

pub open spec fn no_emit() -> EmitModel {
    EmitModel { has: false, pos: 0, dot_target: false }
}

/// Records that one alternative stopped at `pos` expecting `e`.
pub open spec fn alt_add(a: AltModel, pos: int, e: Expected) -> AltModel {
    if !a.has || pos > a.pos {
        AltModel { has: true, pos, expected: seq![e] }
    } else if pos == a.pos && !a.expected.contains(e) {
        AltModel { has: a.has, pos: a.pos, expected: a.expected.push(e) }
    } else {
        a
    }
}

/// `first`, followed by the items of `second` that it does not hold yet.
pub open spec fn append_new(first: Seq<Expected>, second: Seq<Expected>) -> Seq<Expected>
    decreases second.len(),
{
    if second.len() == 0 {
        first
    } else {
        append_new(
            if first.contains(second[0]) {
                first
            } else {
                first.push(second[0])
            },
            second.drop_first(),
        )
    }
}

/// Takes in what a labelled part of the grammar that began at `start`
/// recorded: where it stopped at its own start, it expected `label`. At an
/// equal position the longer list keeps its order and the other's new items
/// follow it.
pub open spec fn alt_merge(a: AltModel, inner: AltModel, start: int, label: Expected) -> AltModel {
    if !inner.has {
        a
    } else {
        let other = if inner.pos == start {
            seq![label]
        } else {
            inner.expected
        };
        if !a.has || inner.pos > a.pos {
            AltModel { has: true, pos: inner.pos, expected: other }
        } else if inner.pos == a.pos {
            if other.len() > a.expected.len() {
                AltModel { has: a.has, pos: a.pos, expected: append_new(other, a.expected) }
            } else {
                AltModel { has: a.has, pos: a.pos, expected: append_new(a.expected, other) }
            }
        } else {
            a
        }
    }
}

/// The end of the run of `part` characters that starts at `i`.
pub open spec fn part_run_end(s: Seq<char>, i: int, part: Part) -> int
    decreases s.len() - i,
{
    if 0 <= i < s.len() && part_char(part, s[i]) {
        part_run_end(s, i + 1, part)
    } else {
        i
    }
}

/// `s[i..j]` is a package segment of dots only, or a target segment `.` or `..`.
pub open spec fn breaks_dots(s: Seq<char>, i: int, j: int, part: Part) -> bool {
    match part {
        Part::Package => forall|k: int| i <= k < j ==> s[k] == '.',
        Part::Target => (j - i == 1 && s[i] == '.') || (j - i == 2 && s[i] == '.' && s[i + 1]
            == '.'),
    }
}

pub open spec fn char_label(part: Part) -> Expected {
    match part {
        Part::Package => Expected::PackageCharacter,
        Part::Target => Expected::TargetCharacter,
    }
}

pub open spec fn name_label(part: Part) -> Expected {
    match part {
        Part::Package => Expected::PackageName,
        Part::Target => Expected::TargetName,
    }
}

/// One segment at `i`: where it ends, and what it records.
pub open spec fn diag_segment(s: Seq<char>, i: int, part: Part, alt: AltModel, em: EmitModel) -> (
    int,
    AltModel,
    EmitModel,
) {
    let j = part_run_end(s, i, part);
    let em2 = if j > i && !em.has && breaks_dots(s, i, j, part) {
        EmitModel { has: true, pos: i, dot_target: part == Part::Target }
    } else {
        em
    };
    (j, alt_add(alt, j, char_label(part)), em2)
}

/// Further `/segment`s from `pos`: where they end, and what they record.
pub open spec fn diag_more_segments(
    s: Seq<char>,
    pos: int,
    part: Part,
    alt: AltModel,
    em: EmitModel,
) -> (int, AltModel, EmitModel)
    decreases s.len() - pos,
{
    if 0 <= pos < s.len() && s[pos] == '/' {
        let (j, alt2, em2) = diag_segment(s, pos + 1, part, alt, em);
        if pos + 1 < j <= s.len() {
            diag_more_segments(s, j, part, alt2, em2)
        } else {
            (pos, alt2, em2)
        }
    } else {
        (pos, alt_add(alt, pos, Expected::Slash), em)
    }
}

/// Slash-separated segments at `i`, a labelled part of the grammar: where
/// they end (`None` where `at_least_one` and there is none), and what they
/// record.
pub open spec fn diag_segments(
    s: Seq<char>,
    i: int,
    part: Part,
    at_least_one: bool,
    alt: AltModel,
    em: EmitModel,
) -> (Option<int>, AltModel, EmitModel) {
    let (j, inner1, em1) = diag_segment(s, i, part, no_alt(), em);
    let (pos, inner2, em2) = if j > i {
        diag_more_segments(s, j, part, inner1, em1)
    } else {
        (i, inner1, em1)
    };
    (
        if j == i && at_least_one {
            None
        } else {
            Some(pos)
        },
        alt_merge(alt, inner2, i, name_label(part)),
        em2,
    )
}

/// A repository name at `i`, a labelled part of the grammar.
pub open spec fn diag_repo_name(s: Seq<char>, i: int, alt: AltModel) -> (int, AltModel) {
    let j = repo_name_end(s, i);
    (j, alt_merge(alt, alt_add(no_alt(), j, Expected::RepoCharacter), i, Expected::RepositoryName))
}

/// The optional `@@name` or `@name`: what it records, and where it ends.
pub open spec fn diag_repo(s: Seq<char>) -> (AltModel, int) {
    let n = s.len();
    let (canonical, p1, ok) = if n >= 1 && s[0] == '@' {
        if n >= 2 && s[1] == '@' {
            let (j, c) = diag_repo_name(s, 2, no_alt());
            (c, j, true)
        } else {
            (alt_add(no_alt(), 1, Expected::At), 0, false)
        }
    } else {
        (alt_add(no_alt(), 0, Expected::At), 0, false)
    };
    let a1 = alt_merge(no_alt(), canonical, 0, Expected::CanonicalRepo);
    if ok {
        (a1, p1)
    } else {
        let (apparent, p2) = if n >= 1 && s[0] == '@' {
            let (j, a) = diag_repo_name(s, 1, no_alt());
            (a, j)
        } else {
            (alt_add(no_alt(), 0, Expected::At), 0)
        };
        (alt_merge(a1, apparent, 0, Expected::ApparentRepo), p2)
    }
}

/// Both alternatives of the grammar: where the one that held ended, and
/// what they record.
pub open spec fn diag_body(s: Seq<char>) -> (Option<int>, AltModel, EmitModel) {
    let n = s.len();
    let (a1, pos) = diag_repo(s);
    if pos < n && s[pos] == '/' && pos + 1 < n && s[pos + 1] == '/' {
        let (p_end, a3, e3) = diag_segments(s, pos + 2, Part::Package, false, a1, no_emit());
        let after = match p_end {
            Some(e) => e,
            None => pos + 2,
        };
        if after < n && s[after] == ':' {
            let (t, a4, e4) = diag_segments(s, after + 1, Part::Target, true, a3, e3);
            (
                Some(
                    match t {
                        Some(e) => e,
                        None => after,
                    },
                ),
                a4,
                e4,
            )
        } else {
            (Some(after), alt_add(a3, after, Expected::Colon), e3)
        }
    } else {
        let a2 = if pos < n && s[pos] == '/' {
            alt_add(a1, pos + 1, Expected::Slash)
        } else {
            alt_add(a1, pos, Expected::Slash)
        };
        let (start, a3) = if n > 0 && s[0] == ':' {
            (1int, a2)
        } else {
            (0int, alt_add(a2, 0, Expected::Colon))
        };
        diag_segments(s, start, Part::Target, true, a3, no_emit())
    }
}

/// The error for a rejected string: the first segment that breaks a rule on
/// dots; else the furthest stop, where the whole label is expected if that
/// is the start and the end of the input is expected too if the label that
/// held ends there.
pub open spec fn diagnosis(s: Seq<char>) -> Diagnosis {
    let (end, a, em) = diag_body(s);
    let a2 = if a.has && a.pos == 0 {
        AltModel { has: a.has, pos: a.pos, expected: seq![Expected::Label] }
    } else {
        a
    };
    let a3 = match end {
        Some(e) => if e < s.len() {
            alt_add(a2, e, Expected::EndOfInput)
        } else {
            a2
        },
        None => a2,
    };
    if em.has {
        if em.dot_target {
            Diagnosis::DotTarget(em.pos)
        } else {
            Diagnosis::DotsPackage(em.pos)
        }
    } else {
        Diagnosis::Unexpected(a3.pos, a3.expected)
    }
}

impl ParseError {
    /// The position and reason of the error.
    pub open spec fn diagnosis_view(&self) -> Diagnosis {
        match self.reason {
            Reason::Unexpected(es) => Diagnosis::Unexpected(self.position as int, es@),
            Reason::DotTarget => Diagnosis::DotTarget(self.position as int),
            Reason::DotsPackage => Diagnosis::DotsPackage(self.position as int),
        }
    }
}

struct Alt {
    has: bool,
    pos: usize,
    expected: Vec<Expected>,
}

struct Emitted {
    has: bool,
    pos: usize,
    dot_target: bool,
}

impl Alt {
    spec fn model(&self) -> AltModel {
        AltModel { has: self.has, pos: self.pos as int, expected: self.expected@ }
    }

    fn none() -> (r: Alt)
        ensures
            r.model() == no_alt(),
            r.pos == 0,
    {
        let r = Alt { has: false, pos: 0, expected: Vec::new() };
        assert(r.model().expected =~= Seq::<Expected>::empty());
        r
    }

    fn add(&mut self, pos: usize, e: Expected)
        ensures
            final(self).model() == alt_add(old(self).model(), pos as int, e),
            final(self).pos == old(self).pos || final(self).pos == pos,
    {
        if !self.has || pos > self.pos {
            let mut v = Vec::new();
            v.push(e);
            assert(v@ =~= seq![e]);
            self.has = true;
            self.pos = pos;
            self.expected = v;
        } else if pos == self.pos && !contains(&self.expected, e) {
            self.expected.push(e);
        }
    }

    fn merge_labelled(&mut self, inner: Alt, start: usize, label: Expected)
        ensures
            final(self).model() == alt_merge(old(self).model(), inner.model(), start as int, label),
            final(self).pos == old(self).pos || final(self).pos == inner.pos,
    {
        if !inner.has {
            return;
        }
        let ghost inner_model = inner.model();
        let other = if inner.pos == start {
            let mut v = Vec::new();
            v.push(label);
            assert(v@ =~= seq![label]);
            v
        } else {
            inner.expected
        };
        if !self.has || inner.pos > self.pos {
            self.has = true;
            self.pos = inner.pos;
            self.expected = other;
        } else if inner.pos == self.pos {
            let mut first: Vec<Expected> = Vec::new();
            std::mem::swap(&mut first, &mut self.expected);
            let mut second = other;
            if second.len() > first.len() {
                std::mem::swap(&mut first, &mut second);
            }
            self.expected = append_new_exec(first, &second);
        }
    }
}

impl Emitted {
    spec fn model(&self) -> EmitModel {
        EmitModel { has: self.has, pos: self.pos as int, dot_target: self.dot_target }
    }
}

fn contains(v: &Vec<Expected>, e: Expected) -> (r: bool)
    ensures
        r == v@.contains(e),
{
    let mut i: usize = 0;
    while i < v.len()
        invariant
            i <= v.len(),
            forall|j: int| 0 <= j < i ==> v@[j] != e,
        decreases v.len() - i,
    {
        if v[i] == e {
            assert(v@[i as int] == e);
            return true;
        }
        i += 1;
    }
    false
}

fn append_new_exec(first: Vec<Expected>, second: &Vec<Expected>) -> (r: Vec<Expected>)
    ensures
        r@ == append_new(first@, second@),
{
    let ghost goal = append_new(first@, second@);
    let mut out = first;
    let mut i: usize = 0;
    assert(second@.subrange(0, second@.len() as int) =~= second@);
    while i < second.len()
        invariant
            i <= second.len(),
            append_new(out@, second@.subrange(i as int, second@.len() as int)) == goal,
        decreases second.len() - i,
    {
        let x = second[i];
        let ghost rest = second@.subrange(i as int, second@.len() as int);
        assert(rest[0] == x);
        assert(rest.drop_first() =~= second@.subrange(i + 1, second@.len() as int));
        if !contains(&out, x) {
            out.push(x);
        }
        i += 1;
    }
    assert(second@.subrange(i as int, second@.len() as int) =~= Seq::<Expected>::empty());
    out
}

fn run_end(cs: &Vec<char>, i: usize, part: Part) -> (r: usize)
    requires
        i <= cs.len(),
    ensures
        i <= r <= cs.len(),
        r == part_run_end(cs@, i as int, part),
{
    let mut k = i;
    while k < cs.len() && part_char_exec(part, cs[k])
        invariant
            i <= k <= cs.len(),
            part_run_end(cs@, i as int, part) == part_run_end(cs@, k as int, part),
        decreases cs.len() - k,
    {
        k += 1;
    }
    k
}

fn diagnose_segment(cs: &Vec<char>, i: usize, part: Part, alt: &mut Alt, emitted: &mut Emitted) -> (r:
    usize)
    requires
        i <= cs.len(),
        old(alt).pos <= cs.len(),
        old(emitted).has ==> old(emitted).pos < cs.len(),
    ensures
        i <= r <= cs.len(),
        final(alt).pos <= cs.len(),
        final(emitted).has ==> final(emitted).pos < cs.len(),
        (r as int, final(alt).model(), final(emitted).model()) == diag_segment(
            cs@,
            i as int,
            part,
            old(alt).model(),
            old(emitted).model(),
        ),
{
    let j = run_end(cs, i, part);
    let label = match part {
        Part::Package => Expected::PackageCharacter,
        Part::Target => Expected::TargetCharacter,
    };
    alt.add(j, label);
    if j > i && !emitted.has {
        let bad = match part {
            Part::Package => {
                let mut all = true;
                let mut k = i;
                while k < j
                    invariant
                        i <= k <= j <= cs.len(),
                        all == (forall|m: int| i <= m < k ==> cs@[m] == '.'),
                    decreases j - k,
                {
                    if cs[k] != '.' {
                        all = false;
                    }
                    k += 1;
                }
                all
            },
            Part::Target => (j - i == 1 && cs[i] == '.') || (j - i == 2 && cs[i] == '.' && cs[i
                + 1] == '.'),
        };
        if bad {
            emitted.has = true;
            emitted.pos = i;
            emitted.dot_target = part == Part::Target;
        }
    }
    j
}

fn diagnose_segments(
    cs: &Vec<char>,
    i: usize,
    part: Part,
    at_least_one: bool,
    alt: &mut Alt,
    emitted: &mut Emitted,
) -> (r: Option<usize>)
    requires
        i <= cs.len(),
        old(alt).pos <= cs.len(),
        old(emitted).has ==> old(emitted).pos < cs.len(),
    ensures
        final(alt).pos <= cs.len(),
        final(emitted).has ==> final(emitted).pos < cs.len(),
        r matches Some(e) ==> i <= e <= cs.len(),
        ({
            let (e, a, m) = diag_segments(
                cs@,
                i as int,
                part,
                at_least_one,
                old(alt).model(),
                old(emitted).model(),
            );
            &&& a == final(alt).model()
            &&& m == final(emitted).model()
            &&& match r {
                Some(x) => e == Some(x as int),
                None => e is None,
            }
        }),
{
    let n = cs.len();
    let mut inner = Alt::none();
    let j = diagnose_segment(cs, i, part, &mut inner, emitted);
    let mut pos = i;
    if j > i {
        pos = j;
        let ghost goal = diag_more_segments(cs@, j as int, part, inner.model(), emitted.model());
        let mut going = true;
        while going
            invariant
                i <= pos <= n,
                n == cs.len(),
                inner.pos <= n,
                emitted.has ==> emitted.pos < n,
                going ==> diag_more_segments(cs@, pos as int, part, inner.model(), emitted.model())
                    == goal,
                !going ==> (pos as int, inner.model(), emitted.model()) == goal,
            decreases (if going {
                n - pos + 1
            } else {
                0
            }),
        {
            if pos < n && cs[pos] == '/' {
                let j2 = diagnose_segment(cs, pos + 1, part, &mut inner, emitted);
                if j2 > pos + 1 {
                    pos = j2;
                } else {
                    going = false;
                }
            } else {
                inner.add(pos, Expected::Slash);
                going = false;
            }
        }
    }
    let label = match part {
        Part::Package => Expected::PackageName,
        Part::Target => Expected::TargetName,
    };
    alt.merge_labelled(inner, i, label);
    if j == i && at_least_one {
        None
    } else {
        Some(pos)
    }
}

fn diagnose_repo_name(cs: &Vec<char>, i: usize, alt: &mut Alt) -> (r: usize)
    requires
        i <= cs.len(),
        old(alt).pos <= cs.len(),
    ensures
        i <= r <= cs.len(),
        final(alt).pos <= cs.len(),
        (r as int, final(alt).model()) == diag_repo_name(cs@, i as int, old(alt).model()),
{
    let mut inner = Alt::none();
    let j = repo_name_end_at(cs, i);
    inner.add(j, Expected::RepoCharacter);
    alt.merge_labelled(inner, i, Expected::RepositoryName);
    j
}

/// The optional repository at the start, as `diag_repo` gives it.
fn diagnose_repo(cs: &Vec<char>) -> (r: (Alt, usize))
    ensures
        r.1 <= cs.len(),
        r.0.pos <= cs.len(),
        (r.0.model(), r.1 as int) == diag_repo(cs@),
{
    let n = cs.len();
    let mut pos: usize = 0;
    let mut repo_ok = false;
    let mut canonical = Alt::none();
    if n >= 1 && cs[0] == '@' {
        if n >= 2 && cs[1] == '@' {
            repo_ok = true;
            pos = diagnose_repo_name(cs, 2, &mut canonical);
        } else {
            canonical.add(1, Expected::At);
        }
    } else {
        canonical.add(0, Expected::At);
    }
    let mut alt = Alt::none();
    alt.merge_labelled(canonical, 0, Expected::CanonicalRepo);
    if !repo_ok {
        let mut apparent = Alt::none();
        if n >= 1 && cs[0] == '@' {
            pos = diagnose_repo_name(cs, 1, &mut apparent);
        } else {
            apparent.add(0, Expected::At);
        }
        alt.merge_labelled(apparent, 0, Expected::ApparentRepo);
    }
    (alt, pos)
}

/// Both alternatives of the grammar, as `diag_body` gives them.
fn diagnose_body(cs: &Vec<char>) -> (r: (Option<usize>, Alt, Emitted))
    ensures
        r.1.pos <= cs.len(),
        r.2.has ==> r.2.pos < cs.len(),
        r.0 matches Some(e) ==> e <= cs.len(),
        ({
            let (e, a, m) = diag_body(cs@);
            &&& a == r.1.model()
            &&& m == r.2.model()
            &&& match r.0 {
                Some(x) => e == Some(x as int),
                None => e is None,
            }
        }),
{
    let n = cs.len();
    let (mut alt, pos) = diagnose_repo(cs);
    let mut emitted = Emitted { has: false, pos: 0, dot_target: false };
    assert(emitted.model() == no_emit());
    if pos < n && cs[pos] == '/' && pos + 1 < n && cs[pos + 1] == '/' {
        // `//package[:target]`
        let p_end = diagnose_segments(cs, pos + 2, Part::Package, false, &mut alt, &mut emitted);
        let mut after = pos + 2;
        if let Some(e) = p_end {
            after = e;
        }
        if after < n && cs[after] == ':' {
            if let Some(e) = diagnose_segments(
                cs,
                after + 1,
                Part::Target,
                true,
                &mut alt,
                &mut emitted,
            ) {
                after = e;
            }
        } else {
            alt.add(after, Expected::Colon);
        }
        (Some(after), alt, emitted)
    } else {
        // `[:]target`
        if pos < n && cs[pos] == '/' {
            alt.add(pos + 1, Expected::Slash);
        } else {
            alt.add(pos, Expected::Slash);
        }
        let mut start: usize = 0;
        if n > 0 && cs[0] == ':' {
            start = 1;
        } else {
            alt.add(0, Expected::Colon);
        }
        let end = diagnose_segments(cs, start, Part::Target, true, &mut alt, &mut emitted);
        (end, alt, emitted)
    }
}

/// The error for a rejected string, as `diagnosis` gives it.
fn diagnose(s: &str, cs: &Vec<char>) -> (r: ParseError)
    requires
        cs@ == s@,
    ensures
        r.position <= s@.len(),
        r.found_view() == found_at(s@, r.position as int),
        r.diagnosis_view() == diagnosis(s@),
{
    let n = cs.len();
    let (end, mut alt, emitted) = diagnose_body(cs);
    if alt.has && alt.pos == 0 {
        let mut v = Vec::new();
        v.push(Expected::Label);
        assert(v@ =~= seq![Expected::Label]);
        alt.expected = v;
    }
    if let Some(e) = end {
        if e < n {
            alt.add(e, Expected::EndOfInput);
        }
    }
    if emitted.has {
        let found = Some(s.substring_char(emitted.pos, emitted.pos + 1).to_owned());
        assert(s@.subrange(emitted.pos as int, emitted.pos + 1) =~= seq![s@[emitted.pos as int]]);
        let reason = if emitted.dot_target {
            Reason::DotTarget
        } else {
            Reason::DotsPackage
        };
        return ParseError { position: emitted.pos, found, reason };
    }
    let found = if alt.pos < n {
        assert(s@.subrange(alt.pos as int, alt.pos + 1) =~= seq![s@[alt.pos as int]]);
        Some(s.substring_char(alt.pos, alt.pos + 1).to_owned())
    } else {
        None
    };
    ParseError { position: alt.pos, found, reason: Reason::Unexpected(alt.expected) }
}

} // verus!
