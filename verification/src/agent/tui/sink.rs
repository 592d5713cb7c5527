//! What is written to the terminal.

use crate::agent::tui::Surface;
use crate::bytes::{push_bytes, push_text};
use vstd::prelude::*;
use vstd::string::*;
use vstd::utf8::*;

verus! {

/// Draws a line over the one before.
pub fn write_progress_frame(out: &mut Vec<u8>, bytes: &[u8])
    ensures
        final(out)@ == if bytes@.len() == 0 {
            old(out)@
        } else {
            old(out)@ + encode_utf8("\r"@) + bytes@ + encode_utf8("\x1b[K"@)
        },
{
    if bytes.len() == 0 {
        return;
    }
    push_text(out, "\r");
    push_bytes(out, bytes);
    push_text(out, "\x1b[K");
}

/// Removes the line that was drawn, if there is a terminal.
pub fn clear_progress_frame(out: &mut Vec<u8>, surface: Surface)
    ensures
        final(out)@ == if surface == Surface::Plain {
            old(out)@
        } else {
            old(out)@ + encode_utf8("\r\x1b[K"@)
        },
{
    if !surface.is_tui() {
        return;
    }
    push_text(out, "\r\x1b[K");
}

/// Where generated text goes as it comes.
pub struct GeneratedSink {
    pub out: Vec<u8>,
    pub surface: Surface,
}

impl GeneratedSink {
    pub fn new(out: Vec<u8>, surface: Surface) -> (r: GeneratedSink)
        ensures
            r.out@ == out@,
            r.surface == surface,
    {
        GeneratedSink { out, surface }
    }

    /// Shows `bytes`, if there is a terminal.
    pub fn push(&mut self, bytes: &[u8])
        ensures
            final(self).surface == old(self).surface,
            final(self).out@ == if old(self).surface == Surface::Tui {
                old(self).out@ + bytes@
            } else {
                old(self).out@
            },
    {
        if !self.surface.is_tui() {
            return;
        }
        push_bytes(&mut self.out, bytes);
    }
}

} // verus!
