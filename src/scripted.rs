//! A simulated device that answers commands from a script, for exercising
//! the protocol without hardware.

use vstd::prelude::*;
use vstd::slice::{slice_subrange, slice_to_vec};
use crate::fastboot::{IoError, Transport};

verus! {

/// Whether two byte buffers are equal.
pub fn same_bytes(a: &[u8], b: &[u8]) -> (r: bool)
    ensures
        r == (a@ == b@),
{
    if a.len() != b.len() {
        return false;
    }
    let mut i: usize = 0;
    while i < a.len()
        invariant
            a@.len() == b@.len(),
            0 <= i <= a@.len(),
            forall|j: int| 0 <= j < i ==> a@[j] == b@[j],
        decreases a@.len() - i,
    {
        if a[i] != b[i] {
            return false;
        }
        i = i + 1;
    }
    assert(a@ =~= b@);
    true
}

/// A device that answers each scripted command with its scripted reply.
///
/// A write of a command with no scripted reply fails. Reads can be made to
/// time out a number of times first, or to fail outright.
pub struct ScriptedDevice {
    script: Vec<(Vec<u8>, Vec<u8>)>,
    timeouts: u64,
    read_failure: Option<String>,
    pending: Option<Vec<u8>>,
    sent: Vec<Vec<u8>>,
}

impl ScriptedDevice {
    /// A device with no script and nothing sent yet.
    pub fn new() -> (r: ScriptedDevice)
        ensures
            r.sent_log().len() == 0,
    {
        ScriptedDevice {
            script: Vec::new(),
            timeouts: 0,
            read_failure: None,
            pending: None,
            sent: Vec::new(),
        }
    }

    /// Scripts the reply to a command; a later script of the same command
    /// takes its place.
    pub fn reply_to(&mut self, command: &[u8], reply: &[u8])
        ensures
            final(self).sent_log() == old(self).sent_log(),
    {
        self.script.push((slice_to_vec(command), slice_to_vec(reply)));
    }

    /// Makes the next `n` reads time out.
    pub fn time_out(&mut self, n: u64)
        ensures
            final(self).sent_log() == old(self).sent_log(),
    {
        self.timeouts = n;
    }

    /// Makes every read that does not time out fail with `message`.
    pub fn fail_reads(&mut self, message: &str)
        ensures
            final(self).sent_log() == old(self).sent_log(),
    {
        self.read_failure = Some(message.to_owned());
    }

    pub closed spec fn sent_log(&self) -> Seq<Vec<u8>> {
        self.sent@
    }

    /// The buffers written to the device so far, oldest first.
    pub fn sent(&self) -> (r: &Vec<Vec<u8>>)
        ensures
            r@ == self.sent_log(),
    {
        &self.sent
    }

    fn scripted_reply(&self, command: &[u8]) -> (r: Option<Vec<u8>>) {
        let mut i: usize = self.script.len();
        while i > 0
            invariant
                i <= self.script@.len(),
            decreases i,
        {
            i = i - 1;
            let (cmd, reply) = &self.script[i];
            if same_bytes(cmd.as_slice(), command) {
                return Some(slice_to_vec(reply.as_slice()));
            }
        }
        None
    }
}

impl Transport for ScriptedDevice {
    fn write_all(&mut self, data: &[u8]) -> Result<(), IoError> {
        self.sent.push(slice_to_vec(data));
        self.pending = self.scripted_reply(data);
        if self.pending.is_none() {
            return Err(IoError::Other("no reply scripted for this command".to_owned()));
        }
        Ok(())
    }

    fn read(&mut self, max_len: usize) -> Result<Vec<u8>, IoError> {
        if self.timeouts > 0 {
            self.timeouts = self.timeouts - 1;
            return Err(IoError::TimedOut);
        }
        let e = match &self.read_failure {
            Some(m) => IoError::Other(m.clone()),
            None => match self.pending.take() {
                Some(reply) => {
                    let n = if reply.len() < max_len { reply.len() } else { max_len };
                    let b = slice_to_vec(slice_subrange(reply.as_slice(), 0, n));
                    return Ok(b);
                },
                None => IoError::Other("no reply pending".to_owned()),
            },
        };
        Err(e)
    }
}


} // verus!
