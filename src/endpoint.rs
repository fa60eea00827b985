//! Validated logical addresses of handlers.
use vstd::prelude::*;
use vstd::string::StrSliceExecFns;

use crate::errors::Error;
use crate::table::TableKey;

verus! {

/// A character allowed inside a segment: ASCII letters and digits, `_` and `-`.
pub open spec fn segment_char(c: char) -> bool {
    ('a' <= c && c <= 'z') || ('A' <= c && c <= 'Z') || ('0' <= c && c <= '9') || c == '_'
        || c == '-'
}

/// The character at `i` fits the grammar `segment ("/" segment)*`, where the last
/// segment may be the single character `*` (a catch-all).
pub open spec fn char_fits(s: Seq<char>, i: int) -> bool {
    let c = s[i];
    if c == '/' {
        0 < i < s.len() - 1 && s[i - 1] != '/'
    } else if c == '*' {
        i == s.len() - 1 && (i == 0 || s[i - 1] == '/')
    } else {
        segment_char(c)
    }
}

/// A well-formed endpoint name.
pub open spec fn valid_name(s: Seq<char>) -> bool {
    s.len() > 0 && forall|i: int| 0 <= i < s.len() ==> char_fits(s, i)
}

/// The name with its last segment replaced by `*`.
pub open spec fn catch_all_of(s: Seq<char>) -> Seq<char>
    decreases s.len(),
{
    if s.len() == 0 {
        seq!['*']
    } else if s.last() == '/' {
        s.push('*')
    } else {
        catch_all_of(s.drop_last())
    }
}

fn is_segment_char(c: char) -> (r: bool)
    ensures
        r == segment_char(c),
{
    ('a' <= c && c <= 'z') || ('A' <= c && c <= 'Z') || ('0' <= c && c <= '9') || c == '_'
        || c == '-'
}

fn is_valid_name(s: &str) -> (r: bool)
    ensures
        r == valid_name(s@),
{
    let n = s.unicode_len();
    if n == 0 {
        return false;
    }
    let mut i: usize = 0;
    while i < n
        invariant
            n == s@.len(),
            i <= n,
            forall|j: int| 0 <= j < i ==> char_fits(s@, j),
        decreases n - i,
    {
        let c = s.get_char(i);
        let ok = if c == '/' {
            0 < i && i < n - 1 && s.get_char(i - 1) != '/'
        } else if c == '*' {
            i == n - 1 && (i == 0 || s.get_char(i - 1) == '/')
        } else {
            is_segment_char(c)
        };
        if !ok {
            assert(!char_fits(s@, i as int));
            return false;
        }
        i = i + 1;
    }
    true
}

/// A validated endpoint name together with a hook flag.
#[derive(Debug, Clone, Hash, PartialEq, Eq)]
pub struct Endpoint {
    name: String,
    is_hook: bool,
}

impl View for Endpoint {
    type V = (Seq<char>, bool);

    closed spec fn view(&self) -> (Seq<char>, bool) {
        (self.name@, self.is_hook)
    }
}

impl TableKey for Endpoint {
    fn same_key(&self, other: &Self) -> (r: bool) {
        self.is_hook == other.is_hook && self.name == other.name
    }
}

/// With `i` just past the last `/` of `s` (or 0 when it has none), the catch-all
/// form is the text up to `i` followed by `*`.
proof fn lemma_catch_all_shape(s: Seq<char>, i: int)
    requires
        0 <= i <= s.len(),
        i == 0 || s[i - 1] == '/',
        forall|j: int| i <= j < s.len() ==> s[j] != '/',
    ensures
        catch_all_of(s) == s.subrange(0, i).push('*'),
    decreases s.len(),
{
    if s.len() == i {
        assert(s.subrange(0, i) =~= s);
        if i == 0 {
            assert(s.subrange(0, 0).push('*') =~= seq!['*']);
        }
    } else {
        assert(s.last() != '/');
        lemma_catch_all_shape(s.drop_last(), i);
        assert(s.drop_last().subrange(0, i) =~= s.subrange(0, i));
    }
}

proof fn lemma_catch_all_valid(s: Seq<char>, i: int)
    requires
        valid_name(s),
        0 <= i <= s.len(),
        i == 0 || s[i - 1] == '/',
        forall|j: int| i <= j < s.len() ==> s[j] != '/',
    ensures
        valid_name(catch_all_of(s)),
{
    lemma_catch_all_shape(s, i);
    let r = catch_all_of(s);
    assert(r == s.subrange(0, i).push('*'));
    assert forall|j: int| 0 <= j < r.len() implies char_fits(r, j) by {
        if j < i {
            assert(char_fits(s, j));
            assert(r[j] == s[j]);
            if j > 0 {
                assert(r[j - 1] == s[j - 1]);
            }
            if s[j] == '*' {
                assert(j == s.len() - 1);
            }
        }
    }
}

/// The empty name is refused, and so is any name holding whitespace or a
/// character outside the grammar.
pub proof fn lemma_rejected_names(s: Seq<char>, i: int)
    requires
        0 <= i < s.len(),
        !segment_char(s[i]) && s[i] != '/' && s[i] != '*',
    ensures
        !valid_name(s),
        !valid_name(Seq::<char>::empty()),
{
    assert(!char_fits(s, i));
}

impl Endpoint {
    pub open spec fn wf(&self) -> bool {
        valid_name(self@.0)
    }

    /// Parses a plain (non-hook) endpoint.
    pub fn new(name: &str) -> (r: Result<Endpoint, Error>)
        ensures
            valid_name(name@) ==> (r matches Ok(e) && e@ == (name@, false)),
            !valid_name(name@) ==> r == Err::<Endpoint, Error>(Error::InvalidEndpoint),
    {
        if is_valid_name(name) {
            Ok(Endpoint { name: name.to_string(), is_hook: false })
        } else {
            Err(Error::InvalidEndpoint)
        }
    }

    /// Parses the hook endpoint of a request name.
    pub fn new_hook(name: &str) -> (r: Result<Endpoint, Error>)
        ensures
            valid_name(name@) ==> (r matches Ok(e) && e@ == (name@, true)),
            !valid_name(name@) ==> r == Err::<Endpoint, Error>(Error::InvalidEndpoint),
    {
        let mut e = Endpoint::new(name)?;
        e.set_is_hook(true);
        Ok(e)
    }

    pub fn set_is_hook(&mut self, is_hook: bool)
        ensures
            final(self)@ == (old(self)@.0, is_hook),
    {
        self.is_hook = is_hook;
    }

    /// The same name with the given hook flag.
    pub fn with_is_hook(&self, is_hook: bool) -> (r: Endpoint)
        ensures
            r@ == (self@.0, is_hook),
    {
        Endpoint { name: self.name.clone(), is_hook }
    }

    pub fn is_hook(&self) -> (r: bool)
        ensures
            r == self@.1,
    {
        self.is_hook
    }

    pub fn as_str(&self) -> (r: &str)
        ensures
            r@ == self@.0,
    {
        self.name.as_str()
    }

    pub fn to_string(&self) -> (r: String)
        ensures
            r@ == self@.0,
    {
        self.name.clone()
    }

    /// The catch-all form: the last segment replaced by `*`, the hook flag kept.
    pub fn to_catch_all(&self) -> (r: Endpoint)
        ensures
            r@ == (catch_all_of(self@.0), self@.1),
            self.wf() ==> r.wf(),
    {
        let s = self.name.as_str();
        let n = s.unicode_len();
        let mut i: usize = n;
        while i > 0 && s.get_char(i - 1) != '/'
            invariant
                n == s@.len(),
                i <= n,
                forall|j: int| i <= j < n ==> s@[j] != '/',
            decreases i,
        {
            i = i - 1;
        }
        proof {
            reveal_strlit("*");
            lemma_catch_all_shape(s@, i as int);
            if self.wf() {
                lemma_catch_all_valid(self@.0, i as int);
            }
        }
        let name = if i == 0 {
            assert(s@.subrange(0, 0) =~= Seq::<char>::empty());
            "*".to_string()
        } else {
            let prefix = s.substring_char(0, i).to_string();
            prefix.concat("*")
        };
        assert(name@ =~= catch_all_of(s@));
        Endpoint { name, is_hook: self.is_hook }
    }
}

} // verus!
