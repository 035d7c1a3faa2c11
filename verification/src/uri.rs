use vstd::prelude::*;

verus! {

/// Mathematical image of a request target: each component as a character
/// sequence, optional components kept optional.
#[verifier::ext_equal]
pub ghost struct UriView {
    pub scheme: Option<Seq<char>>,
    pub authority: Option<Seq<char>>,
    pub path: Seq<char>,
    pub query: Option<Seq<char>>,
}

/// The view of an optional string: the character sequence, when present.
pub open spec fn view_opt(s: Option<String>) -> Option<Seq<char>> {
    match s {
        Some(v) => Some(v@),
        None => None,
    }
}

/// A request target split into its components, as a proxy sees it: either
/// an absolute URI (scheme, authority, path, query) or, for a CONNECT
/// request, an authority alone with an empty path.
pub struct UriParts {
    pub scheme: Option<String>,
    pub authority: Option<String>,
    pub path: String,
    pub query: Option<String>,
}

impl View for UriParts {
    type V = UriView;

    open spec fn view(&self) -> UriView {
        UriView {
            scheme: view_opt(self.scheme),
            authority: view_opt(self.authority),
            path: self.path@,
            query: view_opt(self.query),
        }
    }
}

/// Copies an optional string, preserving its view.
pub fn clone_opt_string(s: &Option<String>) -> (r: Option<String>)
    ensures
        view_opt(r) == view_opt(*s),
{
    match s {
        Some(v) => Some(v.clone()),
        None => None,
    }
}

impl Clone for UriParts {
    fn clone(&self) -> (r: Self)
        ensures
            r@ == self@,
    {
        UriParts {
            scheme: clone_opt_string(&self.scheme),
            authority: clone_opt_string(&self.authority),
            path: self.path.clone(),
            query: clone_opt_string(&self.query),
        }
    }
}

/// An ASCII decimal digit.
pub open spec fn is_digit(c: char) -> bool {
    '0' <= c && c <= '9'
}

/// `i` is the position of the last colon in `a`.
pub open spec fn is_last_colon(a: Seq<char>, i: int) -> bool {
    &&& 0 <= i < a.len()
    &&& a[i] == ':'
    &&& forall|j: int| i < j < a.len() ==> a[j] != ':'
}

/// There is at most one last-colon position.
pub proof fn lemma_last_colon_unique(a: Seq<char>, i: int, j: int)
    requires
        is_last_colon(a, i),
        is_last_colon(a, j),
    ensures
        i == j,
{
    if i < j {
        assert(a[j] != ':');
    } else if j < i {
        assert(a[i] != ':');
    }
}

/// The position of the last colon in `a`, where one exists.
pub open spec fn last_colon_of(a: Seq<char>) -> int {
    choose|i: int| is_last_colon(a, i)
}

/// Every character strictly after position `i` is a decimal digit.
pub open spec fn digits_after(a: Seq<char>, i: int) -> bool {
    forall|j: int| i < j < a.len() ==> is_digit(a[j])
}

/// `a` ends in a port suffix: a colon followed by one or more digits.
pub open spec fn has_port_suffix(a: Seq<char>) -> bool {
    exists|i: int| is_last_colon(a, i) && i + 1 < a.len() && digits_after(a, i)
}

/// The host part of an authority: the authority with a trailing
/// `:digits` port removed, the whole authority otherwise.
pub open spec fn host_of(a: Seq<char>) -> Seq<char> {
    if has_port_suffix(a) {
        a.take(last_colon_of(a))
    } else {
        a
    }
}

/// Position of the last colon in `a`, where one exists.
pub fn find_last_colon(a: &str) -> (r: Option<usize>)
    ensures
        match r {
            Some(i) => is_last_colon(a@, i as int),
            None => forall|j: int| 0 <= j < a@.len() ==> a@[j] != ':',
        },
{
    let n = a.unicode_len();
    let mut k = n;
    while k > 0
        invariant
            k <= n,
            n == a@.len(),
            forall|j: int| k <= j < a@.len() ==> a@[j] != ':',
        decreases k,
    {
        k = k - 1;
        if a.get_char(k) == ':' {
            return Some(k);
        }
    }
    None
}

/// Whether every character of `a` at position `from` or later is a digit.
pub fn all_digits_from(a: &str, from: usize) -> (r: bool)
    requires
        from <= a@.len(),
    ensures
        r == digits_after(a@, from as int - 1),
{
    let n = a.unicode_len();
    let mut k = from;
    while k < n
        invariant
            from <= k <= n,
            n == a@.len(),
            forall|j: int| from <= j < k ==> is_digit(a@[j]),
        decreases n - k,
    {
        let c = a.get_char(k);
        if !('0' <= c && c <= '9') {
            return false;
        }
        k = k + 1;
    }
    true
}

/// The host part of an authority string, as `host_of` describes it.
pub fn extract_host(a: &str) -> (r: String)
    ensures
        r@ == host_of(a@),
{
    match find_last_colon(a) {
        Some(i) => {
            let n = a.unicode_len();
            if i + 1 < n && all_digits_from(a, i + 1) {
                assert(has_port_suffix(a@));
                proof {
                    lemma_last_colon_unique(a@, last_colon_of(a@), i as int);
                }
                a.substring_char(0, i).to_owned()
            } else {
                proof {
                    if has_port_suffix(a@) {
                        let w = choose|w: int|
                            is_last_colon(a@, w) && w + 1 < a@.len() && digits_after(a@, w);
                        lemma_last_colon_unique(a@, w, i as int);
                    }
                }
                a.to_owned()
            }
        },
        None => {
            proof {
                if has_port_suffix(a@) {
                    let w = choose|w: int|
                        is_last_colon(a@, w) && w + 1 < a@.len() && digits_after(a@, w);
                    assert(a@[w] == ':');
                }
            }
            a.to_owned()
        },
    }
}

/// The authority component of a request target, copied out, as the
/// tunnel establisher reads it.
pub fn host_addr(uri: &UriParts) -> (r: Option<String>)
    ensures
        view_opt(r) == uri@.authority,
{
    clone_opt_string(&uri.authority)
}

} // verus!
