use vstd::prelude::*;

verus! {

/// The error interface the parser's callers see: a container that produces a
/// human-readable message on demand.
pub trait Error {
    fn message(&mut self) -> String;
}

/// The one concrete error kind: a free-text message describing why a parse
/// failed.
#[derive(Debug)]
pub struct BasicError {
    msg: String,
}

impl View for BasicError {
    type V = Seq<char>;

    closed spec fn view(&self) -> Seq<char> {
        self.msg@
    }
}

impl BasicError {
    pub fn new(msg: String) -> (r: Box<BasicError>)
        ensures
            r@ == msg@,
    {
        Box::new(BasicError { msg })
    }
}

impl Error for BasicError {
    fn message(&mut self) -> String {
        self.msg.clone()
    }
}

} // verus!
