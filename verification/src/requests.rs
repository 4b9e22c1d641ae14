use vstd::prelude::*;
use vstd::string::*;

verus! {

// ------------------------------------------------------------------
// `%NAME%` expansion in destination paths
// ------------------------------------------------------------------

/// The first `%` of `s` at or after `from`.
pub open spec fn next_percent(s: Seq<char>, from: int) -> Option<int>
    decreases s.len() - from,
{
    if from < 0 || from >= s.len() {
        None
    } else if s[from] == '%' {
        Some(from)
    } else {
        next_percent(s, from + 1)
    }
}

/// Where `next_percent` can point.
pub proof fn lemma_next_percent(s: Seq<char>, from: int)
    requires
        0 <= from,
    ensures
        next_percent(s, from) matches Some(p) ==> from <= p < s.len() && s[p] == '%',
    decreases s.len() - from,
{
    if from < s.len() && s[from] != '%' {
        lemma_next_percent(s, from + 1);
    }
}

/// The names between pairs of `%` in `s`, from `start` on, in order: the
/// first `%` opens a name, the next one closes it, and the scan goes on after
/// the closing one; an unpaired `%` ends the scan.
pub open spec fn var_names_from(s: Seq<char>, start: int) -> Seq<Seq<char>>
    decreases s.len() - start,
{
    if start < 0 || start > s.len() {
        seq![]
    } else {
        match next_percent(s, start) {
            None => seq![],
            Some(p) => match next_percent(s, p + 1) {
                None => seq![],
                Some(q) => {
                    proof {
                        lemma_next_percent(s, start);
                        lemma_next_percent(s, p + 1);
                    }
                    seq![s.subrange(p + 1, q)] + var_names_from(s, q + 1)
                },
            },
        }
    }
}

/// The names of the variables that `expand_vars` looks up in `s`, in order.
pub open spec fn var_names(s: Seq<char>) -> Seq<Seq<char>> {
    var_names_from(s, 0)
}

/// `s` from `start` on with the `k`-th `%NAME%` pair (counting from the
/// `k`-th value) replaced by `values[k]` where that is `Some`, and kept as it
/// is where it is `None` or missing.
pub open spec fn expand_from(s: Seq<char>, start: int, values: Seq<Option<Seq<char>>>, k: int) -> Seq<char>
    decreases s.len() - start,
{
    if start < 0 || start > s.len() {
        seq![]
    } else {
        match next_percent(s, start) {
            None => s.subrange(start, s.len() as int),
            Some(p) => match next_percent(s, p + 1) {
                None => s.subrange(start, s.len() as int),
                Some(q) => {
                    proof {
                        lemma_next_percent(s, start);
                        lemma_next_percent(s, p + 1);
                    }
                    if 0 <= k < values.len() && values[k] is Some {
                        s.subrange(start, p) + values[k]->0 + expand_from(s, q + 1, values, k + 1)
                    } else {
                        s.subrange(start, q + 1) + expand_from(s, q + 1, values, k + 1)
                    }
                },
            },
        }
    }
}

/// `s` with each `%NAME%` replaced by the value found for it, where
/// `values[k]` is what was found for the `k`-th name of `var_names(s)`.
pub open spec fn expand_vars(s: Seq<char>, values: Seq<Option<Seq<char>>>) -> Seq<char> {
    expand_from(s, 0, values, 0)
}

/// `s` with every backslash turned into a forward slash.
pub open spec fn forward_slashes(s: Seq<char>) -> Seq<char> {
    s.map_values(|c: char| if c == '\\' { '/' } else { c })
}

pub open spec fn opt_view(v: Option<String>) -> Option<Seq<char>> {
    match v {
        Some(x) => Some(x@),
        None => None,
    }
}

/// The first `%` of `path` at or after `from`.
fn find_percent(path: &str, from: usize, n: usize) -> (r: Option<usize>)
    requires
        n == path@.len(),
        from <= n,
    ensures
        r matches Some(p) ==> next_percent(path@, from as int) == Some(p as int),
        r is None ==> next_percent(path@, from as int) is None,
{
    let mut i = from;
    while i < n
        invariant
            from <= i <= n,
            n == path@.len(),
            next_percent(path@, from as int) == next_percent(path@, i as int),
        decreases n - i,
    {
        if path.get_char(i) == '%' {
            return Some(i);
        }
        i += 1;
    }
    None
}

/// The names of the variables that `expand_env_vars` needs, in order.
pub fn env_var_names(path: &str) -> (names: Vec<String>)
    ensures
        names@.map_values(|v: String| v@) == var_names(path@),
{
    let n = path.unicode_len();
    let ghost s = path@;
    let mut names: Vec<String> = Vec::new();
    let mut start: usize = 0;
    loop
        invariant_except_break
            start <= n,
            n == s.len(),
            s == path@,
            names@.map_values(|v: String| v@) + var_names_from(s, start as int) == var_names(s),
        ensures
            names@.map_values(|v: String| v@) == var_names(s),
        decreases n - start,
    {
        proof {
            lemma_next_percent(s, start as int);
        }
        match find_percent(path, start, n) {
            None => {
                assert(names@.map_values(|v: String| v@) + seq![] =~= names@.map_values(|v: String| v@));
                break;
            },
            Some(p) => {
                proof {
                    lemma_next_percent(s, p + 1);
                }
                match find_percent(path, p + 1, n) {
                    None => {
                        assert(names@.map_values(|v: String| v@) + seq![] =~= names@.map_values(|v: String| v@));
                        break;
                    },
                    Some(q) => {
                        let ghost before = names@.map_values(|v: String| v@);
                        let name = path.substring_char(p + 1, q).to_owned();
                        names.push(name);
                        assert(names@.map_values(|v: String| v@) =~= before.push(s.subrange(p + 1, q as int)));
                        assert(before + var_names_from(s, start as int) =~= names@.map_values(|v: String| v@)
                            + var_names_from(s, q + 1));
                        start = q + 1;
                    },
                }
            },
        }
    }
    names
}

/// Turns every backslash of `s` into a forward slash.
fn normalize_separators(s: &str) -> (r: String)
    ensures
        r@ == forward_slashes(s@),
{
    let n = s.unicode_len();
    let ghost t = s@;
    let mut out = String::new();
    let mut seg: usize = 0;
    let mut i: usize = 0;
    while i < n
        invariant
            seg <= i <= n,
            n == t.len(),
            t == s@,
            out@ == forward_slashes(t.subrange(0, seg as int)),
            forall|j: int| seg <= j < i ==> t[j] != '\\',
        decreases n - i,
    {
        if s.get_char(i) == '\\' {
            let ghost before = out@;
            out.append(s.substring_char(seg, i));
            out.append("/");
            proof {
                reveal_strlit("/");
            }
            assert(forward_slashes(t.subrange(0, i + 1)) =~= before + t.subrange(seg as int, i as int) + seq!['/']);
            seg = i + 1;
        }
        i += 1;
    }
    let ghost before = out@;
    out.append(s.substring_char(seg, n));
    assert(t.subrange(0, n as int) =~= t);
    assert(forward_slashes(t) =~= before + t.subrange(seg as int, n as int));
    out
}

/// Expands `%NAME%` references in `path` and turns its backslashes into
/// forward slashes. `values[k]` is the value of the `k`-th name that
/// `env_var_names(path)` lists (`None`: the variable is not set); a
/// reference without a value is kept as it is. Substituted text is not
/// scanned again.
pub fn expand_env_vars(path: &str, values: &Vec<Option<String>>) -> (r: String)
    ensures
        r@ == forward_slashes(expand_vars(path@, values@.map_values(|v: Option<String>| opt_view(v)))),
{
    let ghost vals = values@.map_values(|v: Option<String>| opt_view(v));
    let n = path.unicode_len();
    let ghost s = path@;
    let mut out = String::new();
    let mut start: usize = 0;
    let mut k: usize = 0;
    loop
        invariant_except_break
            start <= n,
            n == s.len(),
            s == path@,
            vals == values@.map_values(|v: Option<String>| opt_view(v)),
            out@ + expand_from(s, start as int, vals, k as int) == expand_vars(s, vals),
            k <= start,
        ensures
            out@ == expand_vars(s, vals),
        decreases n - start,
    {
        proof {
            lemma_next_percent(s, start as int);
        }
        match find_percent(path, start, n) {
            None => {
                out.append(path.substring_char(start, n));
                break;
            },
            Some(p) => {
                proof {
                    lemma_next_percent(s, p + 1);
                }
                match find_percent(path, p + 1, n) {
                    None => {
                        out.append(path.substring_char(start, n));
                        break;
                    },
                    Some(q) => {
                        let ghost before = out@;
                        let mut replaced = false;
                        if k < values.len() {
                            match &values[k] {
                                Some(v) => {
                                    out.append(path.substring_char(start, p));
                                    out.append(v.as_str());
                                    replaced = true;
                                },
                                None => {},
                            }
                        }
                        if !replaced {
                            out.append(path.substring_char(start, q + 1));
                        }
                        assert(before + expand_from(s, start as int, vals, k as int)
                            =~= out@ + expand_from(s, q + 1, vals, k + 1));
                        start = q + 1;
                        k = k + 1;
                    },
                }
            },
        }
    }
    normalize_separators(out.as_str())
}

proof fn lemma_no_percent(s: Seq<char>, from: int)
    requires
        0 <= from,
        forall|j: int| 0 <= j < s.len() ==> s[j] != '%',
    ensures
        next_percent(s, from) is None,
    decreases s.len() - from,
{
    if from < s.len() {
        lemma_no_percent(s, from + 1);
    }
}

/// `vals` without its first `n` entries (none are left past its end).
pub open spec fn drop_values(vals: Seq<Option<Seq<char>>>, n: int) -> Seq<Option<Seq<char>>> {
    if 0 <= n <= vals.len() {
        vals.subrange(n, vals.len() as int)
    } else {
        seq![]
    }
}

proof fn lemma_next_percent_shift(s: Seq<char>, base: int, a: int)
    requires
        0 <= base <= a,
        base <= s.len(),
    ensures
        next_percent(s, a) == match next_percent(s.subrange(base, s.len() as int), a - base) {
            Some(p) => Some(p + base),
            None => None,
        },
    decreases s.len() - a,
{
    if a < s.len() && s[a] != '%' {
        lemma_next_percent_shift(s, base, a + 1);
    }
}

proof fn lemma_next_percent_skip(s: Seq<char>, a: int, b: int)
    requires
        0 <= a <= b <= s.len(),
        forall|j: int| a <= j < b ==> s[j] != '%',
    ensures
        next_percent(s, a) == next_percent(s, b),
    decreases b - a,
{
    if a < b {
        lemma_next_percent_skip(s, a + 1, b);
    }
}

proof fn lemma_expand_shift_values(s: Seq<char>, a: int, vals: Seq<Option<Seq<char>>>, k: int)
    requires
        0 <= k,
    ensures
        expand_from(s, a, vals, k + 1) == expand_from(s, a, drop_values(vals, 1), k),
    decreases s.len() - a,
{
    if 0 <= a <= s.len() {
        lemma_next_percent(s, a);
        if let Some(p) = next_percent(s, a) {
            lemma_next_percent(s, p + 1);
            if let Some(q) = next_percent(s, p + 1) {
                lemma_expand_shift_values(s, q + 1, vals, k + 1);
            }
        }
    }
}

proof fn lemma_expand_shift_text(s: Seq<char>, base: int, a: int, vals: Seq<Option<Seq<char>>>, k: int)
    requires
        0 <= base <= a <= s.len(),
    ensures
        expand_from(s, a, vals, k) == expand_from(s.subrange(base, s.len() as int), a - base, vals, k),
    decreases s.len() - a,
{
    let t = s.subrange(base, s.len() as int);
    lemma_next_percent(s, a);
    lemma_next_percent_shift(s, base, a);
    match next_percent(s, a) {
        None => {
            assert(s.subrange(a, s.len() as int) =~= t.subrange(a - base, t.len() as int));
        },
        Some(p) => {
            lemma_next_percent(s, p + 1);
            lemma_next_percent_shift(s, base, p + 1);
            match next_percent(s, p + 1) {
                None => {
                    assert(s.subrange(a, s.len() as int) =~= t.subrange(a - base, t.len() as int));
                },
                Some(q) => {
                    lemma_expand_shift_text(s, base, q + 1, vals, k + 1);
                    assert(s.subrange(a, p) =~= t.subrange(a - base, p - base));
                    assert(s.subrange(a, q + 1) =~= t.subrange(a - base, q + 1 - base));
                },
            }
        },
    }
}

/// Text without `%` in front of the rest of a path is copied as it is, and
/// the rest is expanded with the same values.
pub proof fn law_text_prefix(text: Seq<char>, rest: Seq<char>, vals: Seq<Option<Seq<char>>>)
    requires
        forall|j: int| 0 <= j < text.len() ==> text[j] != '%',
    ensures
        expand_vars(text + rest, vals) == text + expand_vars(rest, vals),
        var_names(text + rest) == var_names(rest),
{
    let s = text + rest;
    let n = text.len() as int;
    assert(s.subrange(n, s.len() as int) =~= rest);
    lemma_next_percent_skip(s, 0, n);
    lemma_next_percent_shift(s, n, n);
    lemma_next_percent(s, 0);
    lemma_expand_shift_text(s, n, n, vals, 0);
    lemma_var_names_shift_text(s, n, n);
    match next_percent(s, 0) {
        None => {
            assert(s.subrange(0, s.len() as int) =~= text + s.subrange(n, s.len() as int));
        },
        Some(p) => {
            lemma_next_percent(s, p + 1);
            match next_percent(s, p + 1) {
                None => {
                    assert(s.subrange(0, s.len() as int) =~= text + s.subrange(n, s.len() as int));
                },
                Some(q) => {
                    assert(s.subrange(0, p) =~= text + s.subrange(n, p));
                    assert(s.subrange(0, q + 1) =~= text + s.subrange(n, q + 1));
                },
            }
        },
    }
}

proof fn lemma_var_names_shift_text(s: Seq<char>, base: int, a: int)
    requires
        0 <= base <= a <= s.len(),
    ensures
        var_names_from(s, a) == var_names_from(s.subrange(base, s.len() as int), a - base),
    decreases s.len() - a,
{
    let t = s.subrange(base, s.len() as int);
    lemma_next_percent(s, a);
    lemma_next_percent_shift(s, base, a);
    if let Some(p) = next_percent(s, a) {
        lemma_next_percent(s, p + 1);
        lemma_next_percent_shift(s, base, p + 1);
        if let Some(q) = next_percent(s, p + 1) {
            lemma_var_names_shift_text(s, base, q + 1);
            assert(s.subrange(p + 1, q) =~= t.subrange(p + 1 - base, q - base));
        }
    }
}

/// A reference `%name%` at the front of a path is replaced by the first
/// value when that is set, and kept as it is when it is not; either way the
/// rest of the path is expanded with the remaining values, so a later
/// reference gets its own value whatever became of the earlier ones.
pub proof fn law_reference_replaced(name: Seq<char>, rest: Seq<char>, vals: Seq<Option<Seq<char>>>)
    requires
        forall|j: int| 0 <= j < name.len() ==> name[j] != '%',
    ensures
        ({
            let reference = seq!['%'] + name + seq!['%'];
            &&& expand_vars(reference + rest, vals) == (if vals.len() > 0 && vals[0] is Some {
                vals[0]->0
            } else {
                reference
            }) + expand_vars(rest, drop_values(vals, 1))
            &&& var_names(reference + rest) == seq![name] + var_names(rest)
        }),
{
    let reference = seq!['%'] + name + seq!['%'];
    let s = reference + rest;
    let q: int = name.len() as int + 1;
    assert(s[0] == '%');
    assert(s[q] == '%');
    assert forall|j: int| 1 <= j < q implies s[j] != '%' by {
        assert(s[j] == name[j - 1]);
    }
    lemma_next_percent_skip(s, 1, q);
    assert(next_percent(s, 0) == Some(0int));
    assert(next_percent(s, q) == Some(q));
    assert(next_percent(s, 1) == Some(q));
    lemma_next_percent(s, 0);
    lemma_next_percent(s, 1);
    lemma_expand_shift_text(s, q + 1, q + 1, vals, 1);
    lemma_var_names_shift_text(s, q + 1, q + 1);
    assert(s.subrange(q + 1, s.len() as int) =~= rest);
    lemma_expand_shift_values(rest, 0, vals, 0);
    assert(s.subrange(0, 0) =~= Seq::<char>::empty());
    assert(s.subrange(0, q + 1) =~= reference);
    assert(s.subrange(1, q) =~= name);
    if vals.len() > 0 && vals[0] is Some {
        assert(s.subrange(0, 0) + vals[0]->0 =~= vals[0]->0);
    }
}

/// A path with neither `%` nor backslash comes out of the expansion as it went in.
pub proof fn law_plain_path_unchanged(s: Seq<char>, values: Seq<Option<Seq<char>>>)
    requires
        forall|j: int| 0 <= j < s.len() ==> s[j] != '%' && s[j] != '\\',
    ensures
        forward_slashes(expand_vars(s, values)) == s,
        var_names(s).len() == 0,
{
    lemma_no_percent(s, 0);
    assert(s.subrange(0, s.len() as int) =~= s);
    assert(forward_slashes(s) =~= s);
}

/// No backslash is left in an expanded path.
pub proof fn law_no_backslash_left(s: Seq<char>, values: Seq<Option<Seq<char>>>)
    ensures
        forall|j: int| 0 <= j < forward_slashes(expand_vars(s, values)).len()
            ==> #[trigger] forward_slashes(expand_vars(s, values))[j] != '\\',
{
}

// ------------------------------------------------------------------
// The downloads the application asks for
// ------------------------------------------------------------------

/// A download to register: id, name, URL and destination.
#[derive(Debug)]
pub struct DownloadRequest {
    pub id: String,
    pub name: String,
    pub url: String,
    pub destination: String,
}

impl View for DownloadRequest {
    type V = (Seq<char>, Seq<char>, Seq<char>, Seq<char>);

    open spec fn view(&self) -> (Seq<char>, Seq<char>, Seq<char>, Seq<char>) {
        (self.id@, self.name@, self.url@, self.destination@)
    }
}

pub open spec fn requests_view(v: Seq<DownloadRequest>) -> Seq<(Seq<char>, Seq<char>, Seq<char>, Seq<char>)> {
    v.map_values(|r: DownloadRequest| r@)
}

/// What serde_json reads from `content` as a JSON object mapping each id to
/// a `[name, url, destination]` array: its entries in increasing order of
/// id, or `None` when the text is not such an object.
pub uninterp spec fn parsed_download_requests(content: Seq<char>) -> Option<Seq<(Seq<char>, Seq<char>, Seq<char>, Seq<char>)>>;

/// Reads the requests file's JSON text with `serde_json::from_str` into a
/// `BTreeMap<String, (String, String, String)>` and lists its entries in the
/// map's (id) order. Claimed: the result is `parsed_download_requests` of
/// the text; nothing is claimed of what that is.
#[verifier::external_body]
fn parse_download_requests(content: &str) -> (r: Option<Vec<DownloadRequest>>)
    ensures
        r is Some ==> parsed_download_requests(content@) == Some(requests_view(r->0@)),
        r is None ==> parsed_download_requests(content@) is None,
{
    match serde_json::from_str::<std::collections::BTreeMap<String, (String, String, String)>>(content) {
        Ok(map) => Some(
            map.into_iter().map(|(id, (name, url, destination))| DownloadRequest { id, name, url, destination }).collect(),
        ),
        Err(_) => None,
    }
}

/// The downloads asked for when no usable requests file is given.
pub open spec fn default_requests() -> Seq<(Seq<char>, Seq<char>, Seq<char>, Seq<char>)> {
    seq![
        ("file1"@, "Rust Logo"@, "https://www.rust-lang.org/static/images/rust-logo-256x256.png"@,
            "downloads/rust-logo.png"@),
        ("file2"@, "Test File"@, "https://httpbin.org/json"@, "downloads/test.json"@),
        ("file3"@, "Example PDF"@, "https://www.w3.org/WAI/ER/tests/xhtml/testfiles/resources/pdf/dummy.pdf"@,
            "downloads/dummy.pdf"@),
    ]
}

fn request(id: &str, name: &str, url: &str, destination: &str) -> (r: DownloadRequest)
    ensures
        r@ == (id@, name@, url@, destination@),
{
    DownloadRequest {
        id: String::from_str(id),
        name: String::from_str(name),
        url: String::from_str(url),
        destination: String::from_str(destination),
    }
}

/// The built-in list of downloads.
pub fn default_download_requests() -> (r: Vec<DownloadRequest>)
    ensures
        requests_view(r@) == default_requests(),
{
    let mut r: Vec<DownloadRequest> = Vec::new();
    r.push(request("file1", "Rust Logo", "https://www.rust-lang.org/static/images/rust-logo-256x256.png",
        "downloads/rust-logo.png"));
    r.push(request("file2", "Test File", "https://httpbin.org/json", "downloads/test.json"));
    r.push(request("file3", "Example PDF", "https://www.w3.org/WAI/ER/tests/xhtml/testfiles/resources/pdf/dummy.pdf",
        "downloads/dummy.pdf"));
    assert(requests_view(r@) =~= default_requests());
    r
}

/// The values found for the names of the `i`-th destination (none when
/// `values` has no `i`-th entry).
pub open spec fn values_view(values: Seq<Vec<Option<String>>>, i: int) -> Seq<Option<Seq<char>>> {
    if 0 <= i < values.len() {
        values[i]@.map_values(|v: Option<String>| opt_view(v))
    } else {
        seq![]
    }
}

/// A request whose destination has its `%NAME%` references expanded with
/// `vals` and its backslashes turned into forward slashes.
pub open spec fn expanded_request(
    r: (Seq<char>, Seq<char>, Seq<char>, Seq<char>),
    vals: Seq<Option<Seq<char>>>,
) -> (Seq<char>, Seq<char>, Seq<char>, Seq<char>) {
    (r.0, r.1, r.2, forward_slashes(expand_vars(r.3, vals)))
}

/// Every request of `rs` expanded with the values for its own destination.
pub open spec fn expanded_requests(
    rs: Seq<(Seq<char>, Seq<char>, Seq<char>, Seq<char>)>,
    values: Seq<Vec<Option<String>>>,
) -> Seq<(Seq<char>, Seq<char>, Seq<char>, Seq<char>)> {
    Seq::new(rs.len(), |i: int| expanded_request(rs[i], values_view(values, i)))
}

/// Expands the destination of each request: `values[i]` holds the values
/// found for the names `env_var_names` lists for the `i`-th destination.
pub fn expand_request_destinations(requests: &Vec<DownloadRequest>, values: &Vec<Vec<Option<String>>>) -> (r: Vec<
    DownloadRequest,
>)
    ensures
        requests_view(r@) == expanded_requests(requests_view(requests@), values@),
{
    let mut r: Vec<DownloadRequest> = Vec::new();
    let no_values: Vec<Option<String>> = Vec::new();
    let len = requests.len();
    let mut i: usize = 0;
    while i < len
        invariant
            i <= len,
            len == requests@.len(),
            no_values@.len() == 0,
            r@.len() == i,
            forall|k: int| 0 <= k < i ==> #[trigger] r@[k]@ == expanded_request(requests@[k]@, values_view(values@, k)),
        decreases len - i,
    {
        let vals = if i < values.len() {
            &values[i]
        } else {
            &no_values
        };
        proof {
            assert(vals@.map_values(|v: Option<String>| opt_view(v)) =~= values_view(values@, i as int));
        }
        let destination = expand_env_vars(requests[i].destination.as_str(), vals);
        r.push(DownloadRequest {
            id: requests[i].id.clone(),
            name: requests[i].name.clone(),
            url: requests[i].url.clone(),
            destination,
        });
        i += 1;
    }
    assert(requests_view(r@) =~= expanded_requests(requests_view(requests@), values@));
    r
}

/// The names each destination of the requests file refers to, in the
/// order of the requests; `content` is the file's text (`None`: no file, or
/// it could not be read). Empty when there is no file or it does not parse,
/// since the built-in requests are not expanded.
pub fn destination_var_names(content: Option<&str>) -> (names: Vec<Vec<String>>)
    ensures
        content is Some && parsed_download_requests(content->0@) is Some ==> {
            let rs = parsed_download_requests(content->0@)->0;
            &&& names@.len() == rs.len()
            &&& forall|i: int| 0 <= i < rs.len() ==> (#[trigger] names@[i])@.map_values(|v: String| v@)
                == var_names(rs[i].3)
        },
        !(content is Some && parsed_download_requests(content->0@) is Some) ==> names@.len() == 0,
{
    let mut names: Vec<Vec<String>> = Vec::new();
    match content {
        Some(text) => match parse_download_requests(text) {
            Some(requests) => {
                let len = requests.len();
                let mut i: usize = 0;
                while i < len
                    invariant
                        i <= len,
                        len == requests@.len(),
                        names@.len() == i,
                        forall|k: int| 0 <= k < i ==> (#[trigger] names@[k])@.map_values(|v: String| v@)
                            == var_names(requests@[k].destination@),
                    decreases len - i,
                {
                    names.push(env_var_names(requests[i].destination.as_str()));
                    i += 1;
                }
                assert(parsed_download_requests(text@) == Some(requests_view(requests@)));
            },
            None => {},
        },
        None => {},
    }
    names
}

/// The downloads to register. `content` is the text of the requests file,
/// `None` when no file was given or it could not be read; `values[i]` the
/// values found for the names `destination_var_names` lists for the `i`-th
/// request. The requests of a file that parses come with their destinations
/// expanded; otherwise the built-in list is used as it is.
pub fn get_downloads_from_hashmap(content: Option<&str>, values: &Vec<Vec<Option<String>>>) -> (r: Vec<
    DownloadRequest,
>)
    ensures
        content is Some && parsed_download_requests(content->0@) is Some ==> requests_view(r@)
            == expanded_requests(parsed_download_requests(content->0@)->0, values@),
        !(content is Some && parsed_download_requests(content->0@) is Some) ==> requests_view(r@)
            == default_requests(),
{
    match content {
        Some(text) => match parse_download_requests(text) {
            Some(requests) => expand_request_destinations(&requests, values),
            None => default_download_requests(),
        },
        None => default_download_requests(),
    }
}

} // verus!
