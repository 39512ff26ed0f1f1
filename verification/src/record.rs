//! A small status record: a flag and a message that move together.
//!
//! The record starts out fine, can be marked not fine with a message of the
//! caller's choosing, and can be put back into its starting state.

use vstd::prelude::*;

verus! {

/// A status flag together with its message.
#[derive(Debug)]
pub struct Foo {
    ok: bool,
    msg: String,
}

impl Foo {
    /// Whether the record is marked fine.
    pub closed spec fn ok_spec(&self) -> bool {
        self.ok
    }

    /// The characters of the record's message.
    pub closed spec fn msg_spec(&self) -> Seq<char> {
        self.msg@
    }

    /// A fresh record: fine, with the starting message.
    pub fn new() -> (r: Self)
        ensures
            r.ok_spec(),
            r.msg_spec() == "All's good"@,
    {
        Self { ok: true, msg: "All's good".to_owned() }
    }

    /// Read-only view of the message.
    pub fn msg(&self) -> (r: &str)
        ensures
            r@ == self.msg_spec(),
    {
        self.msg.as_str()
    }

    /// Mark the record not fine, with the given message.
    pub fn make_not_ok(&mut self, new_msg: String)
        ensures
            !final(self).ok_spec(),
            final(self).msg_spec() == new_msg@,
    {
        self.ok = false;
        self.msg = new_msg;
    }

    /// Put the record back into its starting state.
    pub fn make_ok(&mut self)
        ensures
            final(self).ok_spec(),
            final(self).msg_spec() == "All's good"@,
    {
        self.reset();
    }

    fn reset(&mut self)
        ensures
            final(self).ok_spec(),
            final(self).msg_spec() == "All's good"@,
    {
        self.ok = true;
        self.msg = "All's good".to_owned();
    }

    /// Take the record apart, handing the flag and the message to the caller.
    pub fn deconstruct(self) -> (r: (bool, String))
        ensures
            r.0 == self.ok_spec(),
            r.1@ == self.msg_spec(),
    {
        (self.ok, self.msg)
    }
}

} // verus!
