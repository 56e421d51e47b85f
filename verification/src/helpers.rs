//! Small helpers shared by the extensions.
use vstd::prelude::*;

verus! {

/// The name under which a component's tracing spans are recorded.
#[derive(Clone, Copy, Debug)]
pub struct Tracer(&'static str);

impl Tracer {
    pub closed spec fn name_view(&self) -> Seq<char> {
        self.0@
    }

    pub fn new(name: &'static str) -> (t: Self)
        ensures
            t.name_view() == name@,
    {
        Tracer(name)
    }

    /// The tracer's name.
    pub fn name(&self) -> (n: &'static str)
        ensures
            n@ == self.name_view(),
    {
        self.0
    }
}

} // verus!
