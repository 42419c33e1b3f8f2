//! The paginated fetch protocol and the reading of response bodies into
//! entities. The network itself lives outside the library: a driver issues
//! one GET per page and feeds each outcome to the verified `FetchMachine`,
//! which merges pages, follows continuation links, guards against cycles,
//! and decides when the call is finished.

use vstd::prelude::*;
use crate::text::{to_chars, chars_to_string, i64_to_chars, int_str, str_eq, match_at};
use crate::git::{
    GitUser, Repo, Commit, CommitInfo, File, User, epoch_or_zero, repo_named, repos_unique,
};
use crate::listtui::GiermError;

verus! {

/// A structured response body: null, a scalar, an array, or an object held
/// as its fields in order of arrival.
#[derive(PartialEq, Debug)]
pub enum Data {
    Null,
    Bool(bool),
    Int(i64),
    Str(String),
    Arr(Vec<Data>),
    Obj(Vec<(String, Data)>),
}

/// The elements of an array body.
pub open spec fn arr_items(d: Data) -> Seq<Data>
    recommends
        d is Arr,
{
    match d {
        Data::Arr(v) => v@,
        _ => arbitrary(),
    }
}

/// The fields of an object body.
pub open spec fn obj_entries(d: Data) -> Seq<(String, Data)>
    recommends
        d is Obj,
{
    match d {
        Data::Obj(v) => v@,
        _ => arbitrary(),
    }
}

/// The value of the last field named `key`, as a map lookup on an object
/// whose later fields win.
pub open spec fn obj_lookup(entries: Seq<(String, Data)>, key: Seq<char>) -> Option<Data>
    decreases entries.len(),
{
    if entries.len() == 0 {
        None
    } else if entries.last().0@ == key {
        Some(entries.last().1)
    } else {
        obj_lookup(entries.drop_last(), key)
    }
}

/// Looking a key up in concatenated fields reads the later part first:
/// the later page's value wins.
pub proof fn lemma_lookup_append(a: Seq<(String, Data)>, b: Seq<(String, Data)>, key: Seq<char>)
    ensures
        obj_lookup(a + b, key) == match obj_lookup(b, key) {
            Some(x) => Some(x),
            None => obj_lookup(a, key),
        },
    decreases b.len(),
{
    if b.len() == 0 {
        assert(a + b =~= a);
    } else {
        assert((a + b).drop_last() =~= a + b.drop_last());
        assert((a + b).last() == b.last());
        lemma_lookup_append(a, b.drop_last(), key);
    }
}

/// Indexing into a body as the API client does: the named field of an
/// object, and `Null` for everything else, a missing field included.
pub open spec fn field_of(d: Data, key: Seq<char>) -> Data {
    match d {
        Data::Obj(entries) => match obj_lookup(entries@, key) {
            Some(x) => x,
            None => Data::Null,
        },
        _ => Data::Null,
    }
}

/// The characters of `s` that are not double quotes.
pub open spec fn strip_quotes(s: Seq<char>) -> Seq<char> {
    s.filter(|c: char| c != '"')
}

/// The text a scalar is displayed as, double quotes stripped; composite
/// bodies give an empty string.
pub open spec fn scalar_text(d: Data) -> Seq<char> {
    match d {
        Data::Null => "null"@,
        Data::Bool(b) => if b {
            "true"@
        } else {
            "false"@
        },
        Data::Int(n) => int_str(n as int),
        Data::Str(s) => strip_quotes(s@),
        Data::Arr(_) => Seq::<char>::empty(),
        Data::Obj(_) => Seq::<char>::empty(),
    }
}

/// The integer a body holds, zero for anything that is not an integer.
pub open spec fn int_or_zero(d: Data) -> i64 {
    match d {
        Data::Int(n) => n,
        _ => 0,
    }
}

impl Data {
    /// The named field of an object body; `None` mirrors the `Null` that
    /// indexing anything else yields.
    pub fn get_field(&self, key: &str) -> (r: Option<&Data>)
        ensures
            match r {
                Some(d) => field_of(*self, key@) == *d,
                None => field_of(*self, key@) == Data::Null,
            },
    {
        match self {
            Data::Obj(entries) => {
                let n: usize = entries.len();
                let mut i: usize = n;
                proof {
                    assert(entries@.subrange(0, n as int) =~= entries@);
                }
                while i > 0
                    invariant
                        (*self) is Obj,
                        obj_entries(*self) == entries@,
                        n == entries@.len(),
                        i <= n,
                        obj_lookup(entries@, key@) == obj_lookup(
                            entries@.subrange(0, i as int),
                            key@,
                        ),
                    decreases i,
                {
                    proof {
                        assert(entries@.subrange(0, i as int).drop_last() =~= entries@.subrange(
                            0,
                            (i - 1) as int,
                        ));
                    }
                    i = i - 1;
                    if str_eq(entries[i].0.as_str(), key) {
                        proof {
                            let sub = entries@.subrange(0, (i + 1) as int);
                            assert(sub.len() == i + 1);
                            assert(sub.last() == entries@[i as int]);
                            assert(sub.last().0@ == key@);
                            assert(obj_lookup(sub, key@) == Some(entries@[i as int].1));
                            assert(obj_lookup(entries@, key@) == Some(entries@[i as int].1));
                            assert(field_of(*self, key@) == entries@[i as int].1);
                        }
                        return Some(&entries[i].1);
                    }
                }
                None
            },
            _ => None,
        }
    }

    /// The scalar text of this body, quotes stripped.
    pub fn text(&self) -> (r: String)
        ensures
            r@ == scalar_text(*self),
    {
        match self {
            Data::Null => {
                let v: Vec<char> = to_chars("null");
                chars_to_string(&v)
            },
            Data::Bool(b) => {
                let v: Vec<char> = if *b {
                    to_chars("true")
                } else {
                    to_chars("false")
                };
                chars_to_string(&v)
            },
            Data::Int(n) => {
                let v: Vec<char> = i64_to_chars(*n);
                chars_to_string(&v)
            },
            Data::Str(s) => {
                let v: Vec<char> = to_chars(s.as_str());
                let n: usize = v.len();
                let mut out: Vec<char> = Vec::new();
                proof {
                    reveal(Seq::filter);
                    assert(out@ =~= strip_quotes(s@.subrange(0, 0)));
                }
                let mut i: usize = 0;
                while i < n
                    invariant
                        n == v@.len(),
                        v@ == s@,
                        i <= n,
                        out@ == strip_quotes(s@.subrange(0, i as int)),
                    decreases n - i,
                {
                    proof {
                        reveal(Seq::filter);
                        assert(s@.subrange(0, (i + 1) as int).drop_last() =~= s@.subrange(
                            0,
                            i as int,
                        ));
                        assert(s@.subrange(0, (i + 1) as int).last() == s@[i as int]);
                    }
                    let c: char = v[i];
                    if c != '"' {
                        out.push(c);
                    }
                    i = i + 1;
                }
                assert(s@.subrange(0, n as int) =~= s@);
                chars_to_string(&out)
            },
            Data::Arr(_) => {
                let out: Vec<char> = Vec::new();
                chars_to_string(&out)
            },
            Data::Obj(_) => {
                let out: Vec<char> = Vec::new();
                chars_to_string(&out)
            },
        }
    }

    /// The text of the named field, as `v["key"]` displayed and stripped
    /// of quotes.
    pub fn field_text(&self, key: &str) -> (r: String)
        ensures
            r@ == scalar_text(field_of(*self, key@)),
    {
        match self.get_field(key) {
            Some(d) => d.text(),
            None => {
                let v: Vec<char> = to_chars("null");
                chars_to_string(&v)
            },
        }
    }

    /// The integer of the named field, zero when absent or not an integer.
    pub fn field_int(&self, key: &str) -> (r: i64)
        ensures
            r == int_or_zero(field_of(*self, key@)),
    {
        match self.get_field(key) {
            Some(d) => match d {
                Data::Int(n) => *n,
                _ => 0,
            },
            None => 0,
        }
    }
}

/// The fixed tail that closes a continuation URL in a `link` header.
pub open spec fn next_rel_suffix() -> Seq<char> {
    seq!['>', ';', ' ', 'r', 'e', 'l', '=', '"', 'n', 'e', 'x', 't', '"']
}

/// At `q` the header closes a URL opened at `p`: the suffix starts there,
/// the URL between is non-empty and free of `>`.
pub open spec fn link_end(s: Seq<char>, p: int, q: int) -> bool {
    &&& p + 1 < q
    &&& match_at(s, next_rel_suffix(), q)
    &&& forall|t: int| p < t < q ==> s[t] != '>'
}

/// At `p` the header opens a continuation URL that some `q` closes.
pub open spec fn link_match_at(s: Seq<char>, p: int) -> bool {
    &&& 0 <= p < s.len()
    &&& s[p] == '<'
    &&& exists|q: int| link_end(s, p, q)
}

/// The `rel="next"` URL of a `link` header: the URL of the leftmost
/// `<url>; rel="next"` token, or `None` when the header carries none.
pub fn extract_next_url(link: &str) -> (r: Option<String>)
    ensures
        match r {
            Some(u) => exists|p: int, q: int|
                #[trigger] link_end(link@, p, q) && link_match_at(link@, p) && (forall|t: int|
                    0 <= t < p ==> !link_match_at(link@, t)) && u@ == link@.subrange(p + 1, q),
            None => forall|p: int| !link_match_at(link@, p),
        },
{
    let v: Vec<char> = to_chars(link);
    let n: usize = v.len();
    let mut suffix: Vec<char> = Vec::new();
    suffix.push('>');
    suffix.push(';');
    suffix.push(' ');
    suffix.push('r');
    suffix.push('e');
    suffix.push('l');
    suffix.push('=');
    suffix.push('"');
    suffix.push('n');
    suffix.push('e');
    suffix.push('x');
    suffix.push('t');
    suffix.push('"');
    assert(suffix@ =~= next_rel_suffix());
    let mut p: usize = 0;
    while p < n
        invariant
            n == v@.len(),
            v@ == link@,
            suffix@ == next_rel_suffix(),
            p <= n,
            forall|t: int| 0 <= t < p ==> !link_match_at(link@, t),
        decreases n - p,
    {
        if v[p] == '<' {
            let mut q: usize = p + 1;
            while q < n && v[q] != '>'
                invariant
                    n == v@.len(),
                    v@ == link@,
                    p < q <= n,
                    forall|t: int| p < t < q ==> link@[t] != '>',
                decreases n - q,
            {
                q = q + 1;
            }
            if q < n && q > p + 1 && n - q >= 13 && crate::text::match_here(&v, &suffix, q) {
                let mut url: Vec<char> = Vec::new();
                let mut k: usize = p + 1;
                while k < q
                    invariant
                        n == v@.len(),
                        v@ == link@,
                        p + 1 <= k <= q,
                        q <= n,
                        url@ == link@.subrange(p + 1, k as int),
                    decreases q - k,
                {
                    url.push(v[k]);
                    assert(url@ =~= link@.subrange(p + 1, (k + 1) as int));
                    k = k + 1;
                }
                proof {
                    assert(link_end(link@, p as int, q as int));
                    assert(link_match_at(link@, p as int));
                }
                return Some(chars_to_string(&url));
            }
            proof {
                assert(!link_match_at(link@, p as int)) by {
                    if link_match_at(link@, p as int) {
                        let q0 = choose|q0: int| link_end(link@, p as int, q0);
                        assert(link@.subrange(q0, q0 + 13)[0] == link@[q0]);
                        assert(link@[q0] == '>');
                        if q < n {
                            if q0 < q {
                                assert(link@[q0] != '>');
                            }
                            if q0 > q {
                                assert(link@[q as int] != '>');
                            }
                        } else {
                            assert(link@[q0] != '>');
                        }
                    }
                }
            }
        } else {
            assert(!link_match_at(link@, p as int));
        }
        p = p + 1;
    }
    None
}

#[derive(PartialEq, Eq, Structural, Clone, Copy, Debug)]
pub enum FetchError {
    NetworkError,
    DecodeError,
    ShapeMismatch,
}

/// What one page request came back as: a transport failure, or a response
/// whose body either decoded (`Some`) or did not (`None`), with its status
/// and its `link` header if any.
pub enum PageResult {
    Failed,
    Page { body: Option<Data>, status: u16, link: Option<String> },
}

#[derive(PartialEq, Eq, Structural, Clone, Copy, Debug)]
pub enum StepOutcome {
    KeepGoing,
    Done,
    Stopped(FetchError),
}

/// Some already-requested URL reads as `u`.
pub open spec fn visited_has(vs: Seq<String>, u: Seq<char>) -> bool {
    exists|i: int| 0 <= i < vs.len() && vs[i]@ == u
}

/// Every page is an array.
pub open spec fn all_arrays(pages: Seq<Data>) -> bool {
    forall|i: int| 0 <= i < pages.len() ==> pages[i] is Arr
}

/// Every page is an object.
pub open spec fn all_objects(pages: Seq<Data>) -> bool {
    forall|i: int| 0 <= i < pages.len() ==> pages[i] is Obj
}

/// The elements of the array pages, in page order.
pub open spec fn flat_items(pages: Seq<Data>) -> Seq<Data>
    decreases pages.len(),
{
    if pages.len() == 0 {
        Seq::<Data>::empty()
    } else {
        flat_items(pages.drop_last()) + arr_items(pages.last())
    }
}

/// The fields of the object pages, in page order.
pub open spec fn flat_entries(pages: Seq<Data>) -> Seq<(String, Data)>
    decreases pages.len(),
{
    if pages.len() == 0 {
        Seq::<(String, Data)>::empty()
    } else {
        flat_entries(pages.drop_last()) + obj_entries(pages.last())
    }
}

/// One paginated call in progress: the merged payload so far, the last
/// status, the URLs already requested, and the URL to request next.
pub struct FetchMachine {
    pub data: Data,
    pub status: u16,
    pub visited: Vec<String>,
    pub pending: String,
    pub pages: Ghost<Seq<Data>>,
}

impl FetchMachine {
    /// The pagination-merge law, carried across every step: when all pages
    /// so far were arrays, the payload is their concatenation in page
    /// order; when all were objects, it is their fields in page order,
    /// later fields winning on lookup; before any page it is null.
    pub open spec fn merge_law(self) -> bool {
        &&& (self.pages@.len() > 0 && all_arrays(self.pages@)) ==> (self.data is Arr
            && arr_items(self.data) == flat_items(self.pages@))
        &&& (self.pages@.len() > 0 && all_objects(self.pages@)) ==> (self.data is Obj
            && obj_entries(self.data) == flat_entries(self.pages@))
        &&& self.pages@.len() == 0 ==> self.data is Null
    }

    /// Starts a paginated call at `url`.
    pub fn begin(url: String) -> (r: Self)
        ensures
            r.data is Null,
            r.status == 0,
            r.visited@.len() == 1 && r.visited@[0] == url,
            r.pending == url,
            r.pages@ == Seq::<Data>::empty(),
            r.merge_law(),
    {
        let mut visited: Vec<String> = Vec::new();
        visited.push(url.clone());
        FetchMachine {
            data: Data::Null,
            status: 0,
            visited,
            pending: url,
            pages: Ghost(Seq::empty()),
        }
    }

    /// Whether `u` was already requested in this call.
    pub fn was_visited(&self, u: &str) -> (r: bool)
        ensures
            r == visited_has(self.visited@, u@),
    {
        let n: usize = self.visited.len();
        let mut i: usize = 0;
        while i < n
            invariant
                n == self.visited@.len(),
                i <= n,
                forall|k: int| 0 <= k < i ==> self.visited@[k]@ != u@,
            decreases n - i,
        {
            if str_eq(self.visited[i].as_str(), u) {
                return true;
            }
            i = i + 1;
        }
        false
    }
}

/// How one page body merges into the accumulated payload: a null payload
/// is replaced, an array appends an array page and ignores any other
/// shape, an object takes an object page's fields.
pub open spec fn mergeable(acc: Data, v: Data) -> bool {
    acc is Null || acc is Arr || (acc is Obj && v is Obj)
}

/// The payload that merging `v` into `acc` yields.
pub open spec fn merged_to(acc: Data, v: Data, out: Data) -> bool {
    if acc is Null {
        out == v
    } else if acc is Arr {
        if v is Arr {
            out is Arr && arr_items(out) == arr_items(acc) + arr_items(v)
        } else {
            out == acc
        }
    } else {
        out is Obj && obj_entries(out) == obj_entries(acc) + obj_entries(v)
    }
}

/// One more page extends the flattened views by that page's contents.
proof fn lemma_flat_push(pages: Seq<Data>, v: Data)
    ensures
        flat_items(pages.push(v)) == flat_items(pages) + arr_items(v),
        flat_entries(pages.push(v)) == flat_entries(pages) + obj_entries(v),
{
    assert(pages.push(v).drop_last() =~= pages);
    assert(pages.push(v).last() == v);
}

impl FetchMachine {
    /// Both machines hold the same call state.
    pub open spec fn same_state(a: Self, b: Self) -> bool {
        &&& b.data == a.data
        &&& b.status == a.status
        &&& b.visited == a.visited
        &&& b.pending == a.pending
        &&& b.pages == a.pages
    }

    /// Feeds the outcome of requesting `pending` to the call. Failures
    /// stop the call at once and leave it untouched. A page merges by
    /// shape and records the status; the call finishes after a page with
    /// no continuation link, no `rel="next"` token in it, or a
    /// continuation URL already requested (the cycle guard) - otherwise
    /// the URL becomes `pending`, to be requested next, and is never one
    /// that was requested before.
    pub fn step(&mut self, page: PageResult) -> (r: StepOutcome)
        requires
            old(self).merge_law(),
        ensures
            final(self).merge_law(),
            page is Failed ==> r == StepOutcome::Stopped(FetchError::NetworkError)
                && Self::same_state(*old(self), *final(self)),
            (page matches PageResult::Page { body: None, .. }) ==> r == StepOutcome::Stopped(
                FetchError::DecodeError,
            ) && Self::same_state(*old(self), *final(self)),
            page matches PageResult::Page { body: Some(v), .. } ==> (!mergeable(
                old(self).data,
                v,
            ) ==> r == StepOutcome::Stopped(FetchError::ShapeMismatch) && Self::same_state(
                *old(self),
                *final(self),
            )),
            page matches PageResult::Page { body: Some(v), status: st, link: lk } ==> (mergeable(
                old(self).data,
                v,
            ) ==> {
                &&& merged_to(old(self).data, v, final(self).data)
                &&& final(self).status == st
                &&& final(self).pages@ == old(self).pages@.push(v)
                &&& (r == StepOutcome::Done || r == StepOutcome::KeepGoing)
                &&& (lk is None ==> r == StepOutcome::Done)
                &&& (r == StepOutcome::Done ==> final(self).visited == old(self).visited
                    && final(self).pending == old(self).pending)
                &&& (lk matches Some(l) ==> ((forall|p: int| !link_match_at(l@, p)) ==> r
                    == StepOutcome::Done))
                &&& (lk matches Some(l) ==> (exists|p: int| link_match_at(l@, p)) ==> (exists|
                    p: int,
                    q: int,
                |
                    #[trigger] link_end(l@, p, q) && link_match_at(l@, p) && (forall|t: int|
                        0 <= t < p ==> !link_match_at(l@, t)) && (if visited_has(
                        old(self).visited@,
                        l@.subrange(p + 1, q),
                    ) {
                        r == StepOutcome::Done
                    } else {
                        r == StepOutcome::KeepGoing && final(self).pending@ == l@.subrange(
                            p + 1,
                            q,
                        )
                    })))
                &&& (r == StepOutcome::KeepGoing ==> !visited_has(
                    old(self).visited@,
                    final(self).pending@,
                ) && final(self).visited@ == old(self).visited@.push(final(self).pending))
            }),
    {
        match page {
            PageResult::Failed => StepOutcome::Stopped(FetchError::NetworkError),
            PageResult::Page { body, status, link } => {
                match body {
                    None => StepOutcome::Stopped(FetchError::DecodeError),
                    Some(v) => {
                        let ghost vv = v;
                        let mut cur = Data::Null;
                        core::mem::swap(&mut cur, &mut self.data);
                        let merged: Data = match cur {
                            Data::Null => v,
                            Data::Arr(mut items) => {
                                match v {
                                    Data::Arr(mut pitems) => {
                                        items.append(&mut pitems);
                                        Data::Arr(items)
                                    },
                                    _ => Data::Arr(items),
                                }
                            },
                            Data::Obj(mut entries) => {
                                match v {
                                    Data::Obj(mut pentries) => {
                                        entries.append(&mut pentries);
                                        Data::Obj(entries)
                                    },
                                    _ => {
                                        self.data = Data::Obj(entries);
                                        return StepOutcome::Stopped(FetchError::ShapeMismatch);
                                    },
                                }
                            },
                            Data::Bool(b) => {
                                self.data = Data::Bool(b);
                                return StepOutcome::Stopped(FetchError::ShapeMismatch);
                            },
                            Data::Int(n) => {
                                self.data = Data::Int(n);
                                return StepOutcome::Stopped(FetchError::ShapeMismatch);
                            },
                            Data::Str(t) => {
                                self.data = Data::Str(t);
                                return StepOutcome::Stopped(FetchError::ShapeMismatch);
                            },
                        };
                        self.data = merged;
                        self.status = status;
                        proof {
                            self.pages@ = old(self).pages@.push(vv);
                        }
                        proof {
                            lemma_flat_push(old(self).pages@, vv);
                            if self.pages@.len() > 0 && all_arrays(self.pages@) {
                                assert(vv is Arr) by {
                                    assert(self.pages@[self.pages@.len() - 1] == vv);
                                }
                                assert forall|i: int|
                                    0 <= i < old(self).pages@.len() implies old(
                                    self,
                                ).pages@[i] is Arr by {
                                    assert(self.pages@[i] == old(self).pages@[i]);
                                }
                                if old(self).pages@.len() == 0 {
                                    assert(flat_items(self.pages@) =~= arr_items(vv));
                                }
                            }
                            if self.pages@.len() > 0 && all_objects(self.pages@) {
                                assert(vv is Obj) by {
                                    assert(self.pages@[self.pages@.len() - 1] == vv);
                                }
                                assert forall|i: int|
                                    0 <= i < old(self).pages@.len() implies old(
                                    self,
                                ).pages@[i] is Obj by {
                                    assert(self.pages@[i] == old(self).pages@[i]);
                                }
                                if old(self).pages@.len() == 0 {
                                    assert(flat_entries(self.pages@) =~= obj_entries(vv));
                                }
                            }
                        }
                        match link {
                            None => StepOutcome::Done,
                            Some(l) => {
                                match extract_next_url(l.as_str()) {
                                    None => StepOutcome::Done,
                                    Some(next) => {
                                        if self.was_visited(next.as_str()) {
                                            StepOutcome::Done
                                        } else {
                                            self.visited.push(next.clone());
                                            self.pending = next;
                                            StepOutcome::KeepGoing
                                        }
                                    },
                                }
                            },
                        }
                    },
                }
            },
        }
    }
}

/// The string `"null"`, as indexing a missing field displays it.
fn null_string() -> (r: String)
    ensures
        r@ == "null"@,
{
    let v: Vec<char> = to_chars("null");
    chars_to_string(&v)
}

/// The text two field lookups deep.
fn chain_text2(item: &Data, k1: &str, k2: &str) -> (r: String)
    ensures
        r@ == scalar_text(field_of(field_of(*item, k1@), k2@)),
{
    match item.get_field(k1) {
        Some(d) => d.field_text(k2),
        None => null_string(),
    }
}

/// The text three field lookups deep.
fn chain_text3(item: &Data, k1: &str, k2: &str, k3: &str) -> (r: String)
    ensures
        r@ == scalar_text(field_of(field_of(field_of(*item, k1@), k2@), k3@)),
{
    match item.get_field(k1) {
        Some(d) => chain_text2(d, k2, k3),
        None => null_string(),
    }
}

/// The integer two field lookups deep, zero when absent.
fn chain_int2(item: &Data, k1: &str, k2: &str) -> (r: i64)
    ensures
        r == int_or_zero(field_of(field_of(*item, k1@), k2@)),
{
    match item.get_field(k1) {
        Some(d) => d.field_int(k2),
        None => 0,
    }
}

/// The profile attributes a body carries, as the client reads them.
pub open spec fn gituser_matches(g: GitUser, v: Data) -> bool {
    &&& g.username@ == scalar_text(field_of(v, "login"@))
    &&& g.name@ == scalar_text(field_of(v, "name"@))
    &&& g.email@ == scalar_text(field_of(v, "email"@))
    &&& g.bio@ == scalar_text(field_of(v, "bio"@))
}

/// Reads a profile body into a `GitUser` with an empty repository map.
pub fn gituser_from_data(v: &Data) -> (r: GitUser)
    ensures
        gituser_matches(r, *v),
        r.repos@ == Seq::<Repo>::empty(),
{
    GitUser::new(
        v.field_text("login"),
        v.field_text("name"),
        v.field_text("email"),
        v.field_text("bio"),
    )
}

/// Decides a profile lookup: a 404 means no such account, anything else
/// is read as a profile.
pub fn gituser_from_response(v: &Data, status: u16) -> (r: Option<GitUser>)
    ensures
        status == 404 ==> r is None,
        status != 404 ==> (r matches Some(g) && gituser_matches(g, *v) && g.repos@
            == Seq::<Repo>::empty()),
{
    if status == 404 {
        None
    } else {
        Some(gituser_from_data(v))
    }
}

/// The repository attributes one array element carries.
pub open spec fn repo_matches_item(rp: Repo, item: Data) -> bool {
    &&& rp.user@ == scalar_text(field_of(field_of(item, "owner"@), "login"@))
    &&& rp.name@ == scalar_text(field_of(item, "name"@))
    &&& rp.description@ == scalar_text(field_of(item, "description"@))
    &&& rp.language@ == scalar_text(field_of(item, "language"@))
    &&& rp.created_at == epoch_or_zero(scalar_text(field_of(item, "created_at"@)))
    &&& rp.updated_at == epoch_or_zero(scalar_text(field_of(item, "updated_at"@)))
    &&& rp.commits@ == Seq::<Commit>::empty()
}

/// The name under which an array element's repository is keyed.
pub open spec fn item_name(item: Data) -> Seq<char> {
    scalar_text(field_of(item, "name"@))
}

/// `rp` was read from the last element before `upto` that bears its name.
pub open spec fn repo_from_last_item(rp: Repo, items: Seq<Data>, upto: int) -> bool {
    exists|t: int|
        0 <= t < upto && #[trigger] repo_matches_item(rp, items[t]) && (forall|u: int|
            t < u < upto ==> item_name(items[u]) != rp.name@)
}

/// Reads one repository body.
pub fn repo_from_data(item: &Data) -> (r: Repo)
    ensures
        repo_matches_item(r, *item),
{
    let owner: String = chain_text2(item, "owner", "login");
    Repo::new(
        owner,
        item.field_text("name"),
        item.field_text("description"),
        item.field_text("language"),
        item.field_text("created_at"),
        item.field_text("updated_at"),
    )
}

/// Reads a repository listing into a map keyed by name: every listed name
/// is present, each entry comes from the last listed element bearing its
/// name, and a body that is not an array gives an empty map.
pub fn repos_from_data(v: &Data) -> (r: Vec<Repo>)
    ensures
        repos_unique(r@),
        v matches Data::Arr(items) ==> {
            &&& forall|k: int| 0 <= k < r@.len() ==> #[trigger] repo_from_last_item(
                r@[k],
                items@,
                items@.len() as int,
            )
            &&& forall|t: int| 0 <= t < items@.len() ==> repo_named(r@, item_name(items@[t]))
        },
        !(*v is Arr) ==> r@ == Seq::<Repo>::empty(),
{
    let mut gu = GitUser::new(String::new(), String::new(), String::new(), String::new());
    match v {
        Data::Arr(items) => {
            let n: usize = items.len();
            let mut i: usize = 0;
            while i < n
                invariant
                    (*v) is Arr,
                    arr_items(*v) == items@,
                    n == items@.len(),
                    i <= n,
                    gu.repos_wf(),
                    forall|k: int| 0 <= k < gu.repos@.len() ==> #[trigger] repo_from_last_item(
                        gu.repos@[k],
                        items@,
                        i as int,
                    ),
                    forall|t: int| 0 <= t < i ==> repo_named(gu.repos@, item_name(items@[t])),
                decreases n - i,
            {
                let ghost pre = gu.repos@;
                let rp = repo_from_data(&items[i]);
                let ghost rpv = rp;
                gu.insert_repo(rp);
                proof {
                    assert(rpv.name@ == item_name(items@[i as int]));
                    assert forall|k: int| 0 <= k < gu.repos@.len() implies #[trigger] repo_from_last_item(
                        gu.repos@[k],
                        items@,
                        i + 1,
                    ) by {
                        if repo_named(pre, rpv.name@) {
                            let j = choose|j: int|
                                0 <= j < pre.len() && pre[j].name@ == rpv.name@
                                    && gu.repos@ == pre.update(j, rpv);
                            if k == j {
                                assert(repo_matches_item(gu.repos@[k], items@[i as int]));
                                assert(repo_from_last_item(gu.repos@[k], items@, i + 1));
                            } else {
                                assert(gu.repos@[k] == pre[k]);
                                assert(repo_from_last_item(pre[k], items@, i as int));
                                let t0 = choose|t0: int|
                                    0 <= t0 < i && #[trigger] repo_matches_item(
                                    pre[k],
                                    items@[t0],
                                ) && (forall|u: int|
                                    t0 < u < i ==> item_name(items@[u]) != pre[k].name@);
                                if k < j {
                                    assert(gu.repos@[k].name@ != gu.repos@[j].name@);
                                } else {
                                    assert(gu.repos@[j].name@ != gu.repos@[k].name@);
                                }
                                assert(item_name(items@[i as int]) != gu.repos@[k].name@);
                                assert(repo_matches_item(gu.repos@[k], items@[t0]));
                                assert(repo_from_last_item(gu.repos@[k], items@, i + 1));
                            }
                        } else {
                            assert(gu.repos@ == pre.push(rpv));
                            if k < pre.len() {
                                assert(gu.repos@[k] == pre[k]);
                                assert(repo_from_last_item(pre[k], items@, i as int));
                                let t0 = choose|t0: int|
                                    0 <= t0 < i && #[trigger] repo_matches_item(
                                    pre[k],
                                    items@[t0],
                                ) && (forall|u: int|
                                    t0 < u < i ==> item_name(items@[u]) != pre[k].name@);
                                assert(!repo_named(pre, rpv.name@));
                                assert(item_name(items@[i as int]) != gu.repos@[k].name@);
                                assert(repo_matches_item(gu.repos@[k], items@[t0]));
                                assert(repo_from_last_item(gu.repos@[k], items@, i + 1));
                            } else {
                                assert(gu.repos@[k] == rpv);
                                assert(repo_matches_item(gu.repos@[k], items@[i as int]));
                                assert(repo_from_last_item(gu.repos@[k], items@, i + 1));
                            }
                        }
                    }
                    assert forall|t: int| 0 <= t < i + 1 implies repo_named(
                        gu.repos@,
                        item_name(items@[t]),
                    ) by {
                        if repo_named(pre, rpv.name@) {
                            let j = choose|j: int|
                                0 <= j < pre.len() && pre[j].name@ == rpv.name@
                                    && gu.repos@ == pre.update(j, rpv);
                            if t < i {
                                let w = choose|w: int|
                                    0 <= w < pre.len() && pre[w].name@ == item_name(items@[t]);
                                if w == j {
                                    assert(gu.repos@[j].name@ == item_name(items@[t]));
                                } else {
                                    assert(gu.repos@[w].name@ == item_name(items@[t]));
                                }
                            } else {
                                assert(gu.repos@[j].name@ == item_name(items@[i as int]));
                            }
                        } else {
                            if t < i {
                                let w = choose|w: int|
                                    0 <= w < pre.len() && pre[w].name@ == item_name(items@[t]);
                                assert(gu.repos@[w].name@ == item_name(items@[t]));
                            } else {
                                assert(gu.repos@[pre.len() as int].name@ == item_name(
                                    items@[i as int],
                                ));
                            }
                        }
                    }
                }
                i = i + 1;
            }
        },
        _ => {
        },
    }
    gu.repos
}

/// The commit attributes one array element carries.
pub open spec fn commit_matches_item(c: Commit, item: Data) -> bool {
    &&& c.message@ == scalar_text(field_of(field_of(item, "commit"@), "message"@))
    &&& c.sha@ == scalar_text(field_of(item, "sha"@))
    &&& c.committer@ == scalar_text(field_of(field_of(item, "committer"@), "login"@))
    &&& c.date == epoch_or_zero(
        scalar_text(field_of(field_of(field_of(item, "commit"@), "author"@), "date"@)),
    )
    &&& c.info is None
}

/// Reads a commit listing in the order received; a body that is not an
/// array gives no commits.
pub fn commits_from_data(v: &Data) -> (r: Vec<Commit>)
    ensures
        v matches Data::Arr(items) ==> r@.len() == items@.len() && (forall|t: int|
            0 <= t < items@.len() ==> commit_matches_item(r@[t], items@[t])),
        !(*v is Arr) ==> r@ == Seq::<Commit>::empty(),
{
    let mut out: Vec<Commit> = Vec::new();
    match v {
        Data::Arr(items) => {
            let n: usize = items.len();
            let mut i: usize = 0;
            while i < n
                invariant
                    (*v) is Arr,
                    arr_items(*v) == items@,
                    n == items@.len(),
                    i <= n,
                    out@.len() == i,
                    forall|t: int| 0 <= t < i ==> commit_matches_item(out@[t], items@[t]),
                decreases n - i,
            {
                let item = &items[i];
                let c = Commit::new(
                    chain_text2(item, "commit", "message"),
                    item.field_text("sha"),
                    chain_text2(item, "committer", "login"),
                    chain_text3(item, "commit", "author", "date"),
                );
                out.push(c);
                i = i + 1;
            }
        },
        _ => {
        },
    }
    out
}

/// The per-file attributes one element of a commit detail's file list
/// carries.
pub open spec fn file_matches_item(f: File, item: Data) -> bool {
    &&& f.name@ == scalar_text(field_of(item, "filename"@))
    &&& f.sha@ == scalar_text(field_of(item, "sha"@))
    &&& f.additions == int_or_zero(field_of(item, "additions"@)) as i32
    &&& f.deletions == int_or_zero(field_of(item, "deletions"@)) as i32
    &&& f.patch_diff@ == scalar_text(field_of(item, "patch"@))
}

/// Reads a commit detail body: the diff totals and the changed files in
/// order; a body that is not an object gives the empty detail.
pub fn commit_info_from_data(v: &Data) -> (r: CommitInfo)
    ensures
        (*v) is Obj ==> {
            &&& r.total_changes == int_or_zero(field_of(field_of(*v, "stats"@), "total"@)) as i32
            &&& r.additions == int_or_zero(
                field_of(field_of(*v, "stats"@), "additions"@),
            ) as i32
            &&& r.deletions == int_or_zero(field_of(field_of(*v, "stats"@), "deletions"@)) as i32
            &&& (field_of(*v, "files"@) matches Data::Arr(files) ==> r.files@.len()
                == files@.len() && (forall|t: int|
                0 <= t < files@.len() ==> file_matches_item(r.files@[t], files@[t])))
            &&& !(field_of(*v, "files"@) is Arr) ==> r.files@ == Seq::<File>::empty()
        },
        !((*v) is Obj) ==> (r.total_changes == 0 && r.additions == 0 && r.deletions == 0
            && r.files@ == Seq::<File>::empty()),
{
    match v {
        Data::Obj(_) => {
            let total: i64 = chain_int2(v, "stats", "total");
            let additions: i64 = chain_int2(v, "stats", "additions");
            let deletions: i64 = chain_int2(v, "stats", "deletions");
            let mut info = CommitInfo::new(total as i32, additions as i32, deletions as i32);
            match v.get_field("files") {
                Some(fd) => {
                    match fd {
                        Data::Arr(files) => {
                            let n: usize = files.len();
                            let mut i: usize = 0;
                            while i < n
                                invariant
                                    (*fd) is Arr,
                                    arr_items(*fd) == files@,
                                    n == files@.len(),
                                    i <= n,
                                    info.files@.len() == i,
                                    forall|t: int|
                                        0 <= t < i ==> file_matches_item(
                                            info.files@[t],
                                            files@[t],
                                        ),
                                    info.total_changes == total as i32,
                                    info.additions == additions as i32,
                                    info.deletions == deletions as i32,
                                decreases n - i,
                            {
                                let item = &files[i];
                                let f = File::new(
                                    item.field_text("filename"),
                                    item.field_text("sha"),
                                    item.field_int("additions") as i32,
                                    item.field_int("deletions") as i32,
                                    item.field_text("patch"),
                                );
                                info.files.push(f);
                                i = i + 1;
                            }
                        },
                        _ => {
                        },
                    }
                },
                None => {
                },
            }
            info
        },
        _ => CommitInfo::default(),
    }
}

/// Reads the authoritative remaining-rate value from a rate body into the
/// account, as the rate endpoint's caller does.
pub fn apply_rate(user: &mut User, v: &Data)
    ensures
        final(user).remaining == int_or_zero(field_of(field_of(*v, "rate"@), "remaining"@)) as i32,
        final(user).git == old(user).git,
        final(user).password == old(user).password,
{
    let n: i64 = chain_int2(v, "rate", "remaining");
    user.set_ratelimit(n as i32);
}

/// Installs a looked-up profile as the account's own, or reports that the
/// account was not found and leaves it untouched.
pub fn install_gituser(user: &mut User, found: Option<GitUser>) -> (r: Result<(), GiermError>)
    ensures
        found matches Some(g) ==> r is Ok && final(user).git == g
            && final(user).password == old(user).password
            && final(user).remaining == old(user).remaining,
        found is None ==> r == Result::<(), GiermError>::Err(GiermError::NotFoundError)
            && *final(user) == *old(user),
{
    match found {
        Some(g) => {
            user.git = g;
            Ok(())
        },
        None => Err(GiermError::NotFoundError),
    }
}

/// The URL of a profile lookup.
pub fn user_url(username: &String) -> (r: String)
    ensures
        r@ == "https://api.github.com/users/"@ + username@,
{
    let mut out: Vec<char> = Vec::new();
    crate::text::append_str_chars(&mut out, "https://api.github.com/users/");
    crate::text::append_str_chars(&mut out, username.as_str());
    chars_to_string(&out)
}

/// The URL of the rate-status endpoint.
pub fn rate_url() -> (r: String)
    ensures
        r@ == "https://api.github.com/rate_limit"@,
{
    let v: Vec<char> = to_chars("https://api.github.com/rate_limit");
    chars_to_string(&v)
}

/// The URL a repository listing is requested from: the authenticated
/// listing for the session owner (case-insensitively), the public listing
/// for anyone else.
pub fn repos_url(user: &User, username: &String) -> (r: String)
    ensures
        crate::text::lower_of(username@) == crate::text::lower_of(user.git.username@) ==> r@
            == "https://api.github.com/user/repos"@,
        crate::text::lower_of(username@) != crate::text::lower_of(user.git.username@) ==> r@
            == "https://api.github.com/users/"@ + username@ + "/repos"@,
{
    let a: String = crate::text::to_lower(username.as_str());
    let b: String = crate::text::to_lower(user.git.username.as_str());
    if str_eq(a.as_str(), b.as_str()) {
        let v: Vec<char> = to_chars("https://api.github.com/user/repos");
        chars_to_string(&v)
    } else {
        let mut out: Vec<char> = Vec::new();
        crate::text::append_str_chars(&mut out, "https://api.github.com/users/");
        crate::text::append_str_chars(&mut out, username.as_str());
        crate::text::append_str_chars(&mut out, "/repos");
        chars_to_string(&out)
    }
}

/// The URL of one repository.
pub fn repo_url(username: &String, repo_name: &String) -> (r: String)
    ensures
        r@ == "https://api.github.com/repos/"@ + username@ + seq!['/'] + repo_name@,
{
    let mut out: Vec<char> = Vec::new();
    crate::text::append_str_chars(&mut out, "https://api.github.com/repos/");
    crate::text::append_str_chars(&mut out, username.as_str());
    out.push('/');
    crate::text::append_str_chars(&mut out, repo_name.as_str());
    chars_to_string(&out)
}

/// The URL of a repository's commit listing.
pub fn repo_commits_url(owner: &String, repo_name: &String) -> (r: String)
    ensures
        r@ == "https://api.github.com/repos/"@ + owner@ + seq!['/'] + repo_name@ + "/commits"@,
{
    let mut out: Vec<char> = Vec::new();
    crate::text::append_str_chars(&mut out, "https://api.github.com/repos/");
    crate::text::append_str_chars(&mut out, owner.as_str());
    out.push('/');
    crate::text::append_str_chars(&mut out, repo_name.as_str());
    crate::text::append_str_chars(&mut out, "/commits");
    chars_to_string(&out)
}

/// The URL of one commit's detail.
pub fn commit_info_url(owner: &String, repo_name: &String, sha: &String) -> (r: String)
    ensures
        r@ == "https://api.github.com/repos/"@ + owner@ + seq!['/'] + repo_name@ + "/commits/"@
            + sha@,
{
    let mut out: Vec<char> = Vec::new();
    crate::text::append_str_chars(&mut out, "https://api.github.com/repos/");
    crate::text::append_str_chars(&mut out, owner.as_str());
    out.push('/');
    crate::text::append_str_chars(&mut out, repo_name.as_str());
    crate::text::append_str_chars(&mut out, "/commits/");
    crate::text::append_str_chars(&mut out, sha.as_str());
    chars_to_string(&out)
}

} // verus!
