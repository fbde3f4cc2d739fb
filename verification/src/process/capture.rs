//! What a command that ran to its end left behind.

use vstd::prelude::*;

verus! {

/// The exit code and the captured output of a finished command.
#[derive(Debug)]
pub struct RunResult {
    pub exit_code: Option<i32>,
    pub stdout: Vec<u8>,
    pub stderr: Vec<u8>,
}

impl RunResult {
    /// Whether the command exited with code 0.
    pub fn succeeded(&self) -> (ok: bool)
        ensures
            ok == (self.exit_code == Some(0i32)),
    {
        match self.exit_code {
            Some(code) => code == 0,
            None => false,
        }
    }
}

/// Appends one line of output and its line break to what was captured so far.
pub fn read_output_to_buf(buf: &mut Vec<u8>, line: &[u8])
    ensures
        final(buf)@ == old(buf)@ + line@ + seq![0x0au8],
{
    let mut i: usize = 0;
    while i < line.len()
        invariant
            i <= line.len(),
            buf@ == old(buf)@ + line@.take(i as int),
        decreases line.len() - i,
    {
        buf.push(line[i]);
        assert(buf@ =~= old(buf)@ + line@.take(i + 1));
        i += 1;
    }
    assert(line@.take(i as int) =~= line@);
    buf.push(0x0a);
    assert(buf@ =~= old(buf)@ + line@ + seq![0x0au8]);
}

} // verus!
