use vstd::prelude::*;

verus! {

/// A failure, told in words.
#[derive(Debug)]
pub struct Fault {
    pub text: String,
}

impl View for Fault {
    type V = Seq<char>;

    open spec fn view(&self) -> Seq<char> {
        self.text@
    }
}

impl Fault {
    /// The failure that `text` tells.
    pub fn new(text: &str) -> (r: Fault)
        ensures
            r@ == text@,
    {
        Fault { text: text.to_owned() }
    }

    /// The failure in words.
    pub fn message(&self) -> (r: String)
        ensures
            r@ == self@,
    {
        self.text.clone()
    }
}

/// What came of a step that gives back nothing: its failure in words, if it failed.
pub open spec fn done(r: Result<(), Fault>) -> Result<(), Seq<char>> {
    match r {
        Ok(_) => Ok(()),
        Err(e) => Err(e@),
    }
}

/// What came of a step that gives back a plain value.
pub open spec fn plain<T>(r: Result<T, Fault>) -> Result<T, Seq<char>> {
    match r {
        Ok(v) => Ok(v),
        Err(e) => Err(e@),
    }
}

/// What came of a step that gives back a value with a view.
pub open spec fn seen<T: View>(r: Result<T, Fault>) -> Result<T::V, Seq<char>> {
    match r {
        Ok(v) => Ok(v@),
        Err(e) => Err(e@),
    }
}

/// The text in double quotes, with the escapes that Rust's debug form uses.
pub uninterp spec fn quoted(s: Seq<char>) -> Seq<char>;

/// Calls `<str as std::fmt::Debug>::fmt` through `format!`. The result is a function of the
/// text alone; which characters it escapes, and how, is left unsaid.
#[verifier::external_body]
pub(crate) fn quote(s: &str) -> (r: String)
    ensures
        r@ == quoted(s@),
{
    format!("{s:?}")
}

/// The first of the failures, if there is one.
pub open spec fn first_fault(s: Seq<Option<Seq<char>>>) -> Option<Seq<char>>
    decreases s.len(),
{
    if s.len() == 0 {
        None
    } else if s[0] is Some {
        s[0]
    } else {
        first_fault(s.drop_first())
    }
}

/// The first failure, where nothing before it failed.
pub proof fn first_fault_at(s: Seq<Option<Seq<char>>>, i: int)
    requires
        0 <= i < s.len(),
        s[i] is Some,
        forall|j: int| 0 <= j < i ==> #[trigger] s[j] is None,
    ensures
        first_fault(s) == s[i],
    decreases i,
{
    if i > 0 {
        assert(s[0] is None);
        let t = s.drop_first();
        assert forall|j: int| 0 <= j < i - 1 implies #[trigger] t[j] is None by {
            assert(t[j] == s[j + 1]);
        }
        first_fault_at(t, i - 1);
    }
}

/// Where nothing failed there is no first failure.
pub proof fn first_fault_none(s: Seq<Option<Seq<char>>>)
    requires
        forall|j: int| 0 <= j < s.len() ==> #[trigger] s[j] is None,
    ensures
        first_fault(s) is None,
    decreases s.len(),
{
    if s.len() > 0 {
        assert(s[0] is None);
        let t = s.drop_first();
        assert forall|j: int| 0 <= j < t.len() implies #[trigger] t[j] is None by {
            assert(t[j] == s[j + 1]);
        }
        first_fault_none(t);
    }
}

/// `a`, or where it is no failure `b`.
pub open spec fn sooner(a: Option<Seq<char>>, b: Option<Seq<char>>) -> Option<Seq<char>> {
    if a is Some {
        a
    } else {
        b
    }
}

/// Success, unless there is a failure.
pub open spec fn unless(fault: Option<Seq<char>>) -> Result<(), Seq<char>> {
    match fault {
        Some(e) => Err(e),
        None => Ok(()),
    }
}

/// The failure `text` where `wrong` holds.
pub open spec fn fault_if(wrong: bool, text: Seq<char>) -> Option<Seq<char>> {
    if wrong {
        Some(text)
    } else {
        None
    }
}

/// Fails with `text` where `wrong` holds.
pub fn fail_if(wrong: bool, text: &str) -> (r: Result<(), Fault>)
    ensures
        done(r) == unless(fault_if(wrong, text@)),
{
    if wrong {
        Err(Fault::new(text))
    } else {
        Ok(())
    }
}

} // verus!
