//! The decode pipeline around the engine: instruction records, the
//! queue-then-flush printer, and the run driver.
//!
//! Column alignment needs every line before the first byte of output is
//! written, because a column's width depends on the widest field across the
//! whole run. The printer therefore buffers one rendered line per record and
//! flushes them all at once through the aligner.

use vstd::prelude::*;
use vstd::string::StringExecFns;

use crate::align;
use crate::align::tab_aligned;
use crate::args::DisasmArg;
use crate::args::MachineMode;
use crate::error::Error;
use crate::render::render_line;
use crate::render::spec_render_line;
use crate::render::string_push;

verus! {

/// Cell padding between aligned columns, in spaces.
pub const PADDING: usize = 8;

/// One decoded machine instruction, as plain values: its linear address, the
/// raw bytes it consumed, and its formatted mnemonic/operand text.
pub struct DecodedInstruction {
    pub addr: u64,
    pub bytes: Vec<u8>,
    pub text: String,
}

impl DecodedInstruction {
    /// The line this record renders to at one verbosity tier.
    pub open spec fn line(&self, verbosity: u8) -> Seq<char> {
        spec_render_line(verbosity, self.addr, self.bytes@, self.text@)
    }
}

/// The queued lines joined by single newlines, without a trailing one.
pub open spec fn join_lines(lines: Seq<Seq<char>>) -> Seq<char>
    decreases lines.len(),
{
    if lines.len() == 0 {
        Seq::empty()
    } else if lines.len() == 1 {
        lines[0]
    } else {
        join_lines(lines.drop_last()) + seq!['\n'] + lines.last()
    }
}

/// The full text handed to the aligner: the joined lines plus one trailing
/// newline, as one write of the whole run produces.
pub open spec fn output_text(lines: Seq<Seq<char>>) -> Seq<char> {
    join_lines(lines) + seq!['\n']
}

/// Buffers one rendered line per queued instruction, then flushes them all at
/// once so that the tab-separated fields come out column-aligned.
pub struct Printer {
    pub verbosity: u8,
    pub inst_strings: Vec<String>,
}

impl Printer {
    /// The lines queued so far, in order.
    pub open spec fn lines(&self) -> Seq<Seq<char>> {
        self.inst_strings.deep_view()
    }

    pub fn new(verbosity: u8) -> (p: Printer)
        ensures
            p.verbosity == verbosity,
            p.lines() == Seq::<Seq<char>>::empty(),
    {
        let p = Printer { verbosity, inst_strings: Vec::new() };
        proof {
            assert(p.lines() =~~= Seq::<Seq<char>>::empty());
        }
        p
    }

    /// Renders one record at this printer's verbosity tier and appends the
    /// line to the queue; nothing already queued is touched.
    pub fn queue(&mut self, inst: &DecodedInstruction)
        ensures
            final(self).verbosity == old(self).verbosity,
            final(self).lines() == old(self).lines().push(inst.line(old(self).verbosity)),
    {
        let line = render_line(
            self.verbosity,
            inst.addr,
            inst.bytes.as_slice(),
            inst.text.as_str(),
        );
        self.inst_strings.push(line);
        proof {
            assert(self.lines() =~~= old(self).lines().push(inst.line(old(self).verbosity)));
        }
    }

    /// Joins the queued lines, appends the final newline, and aligns the
    /// whole text in one flush.
    pub fn show(&self) -> (r: Result<String, Error>)
        ensures
            tab_aligned(output_text(self.lines()), PADDING as int) is Some ==> (r matches Ok(s)
                && s@ == tab_aligned(output_text(self.lines()), PADDING as int)->Some_0),
            tab_aligned(output_text(self.lines()), PADDING as int) is None ==> (r matches Err(e)
                && e is Io),
            (forall|i: int|
                0 <= i < output_text(self.lines()).len() ==> output_text(self.lines())[i] != '\t')
                ==> (r matches Ok(s) && s@ == output_text(self.lines())),
    {
        let mut text = String::new();
        let n = self.inst_strings.len();
        let mut i: usize = 0;
        while i < n
            invariant
                i <= n,
                n == self.inst_strings@.len(),
                text@ == join_lines(self.lines().take(i as int)),
            decreases n - i,
        {
            if i > 0 {
                string_push(&mut text, '\n');
            }
            text.append(self.inst_strings[i].as_str());
            proof {
                assert(self.lines().take(i + 1).drop_last() =~= self.lines().take(i as int));
                assert(self.lines().take(i + 1).last() == self.lines()[i as int]);
                assert(text@ =~= join_lines(self.lines().take(i + 1)));
            }
            i += 1;
        }
        proof {
            assert(self.lines().take(n as int) =~= self.lines());
        }
        string_push(&mut text, '\n');
        proof {
            assert(text@ =~= output_text(self.lines()));
        }
        match align::tab_align(text.as_str(), PADDING) {
            Some(s) => Ok(s),
            None => Err(Error::Io(("could not align the output").to_owned())),
        }
    }
}

/// The rendered line of each record, in order, at one verbosity tier.
pub open spec fn record_lines(verbosity: u8, records: Seq<DecodedInstruction>) -> Seq<Seq<char>> {
    records.map_values(
        |rec: DecodedInstruction| spec_render_line(verbosity, rec.addr, rec.bytes@, rec.text@),
    )
}

/// No prior record is ever discarded: the flush maps the records that the
/// engine produced before it stopped to rendered lines one to one, in order.
pub proof fn lemma_no_record_dropped(verbosity: u8, records: Seq<DecodedInstruction>)
    ensures
        record_lines(verbosity, records).len() == records.len(),
        forall|i: int|
            0 <= i < records.len() ==> record_lines(verbosity, records)[i] == records[i].line(
                verbosity,
            ),
{
}

/// Drives one run: holds the resolved configuration and turns the records
/// that the decode engine produced into the final aligned text.
pub struct Disassembler {
    pub mode: MachineMode,
    pub verbosity: u8,
}

impl Disassembler {
    /// Takes the run's configuration over from the argument set.
    pub fn new(arg: &DisasmArg) -> (r: Result<Disassembler, Error>)
        ensures
            r matches Ok(d) && d.mode == arg.mode && d.verbosity == arg.verbosity,
    {
        Ok(Disassembler { mode: arg.mode, verbosity: arg.verbosity })
    }

    /// Renders every record at this run's verbosity tier, in order and none
    /// dropped, and flushes them as one column-aligned text. Zero records
    /// yield a single bare newline and success.
    pub fn disasm(&self, records: &Vec<DecodedInstruction>) -> (r: Result<String, Error>)
        ensures
            tab_aligned(output_text(record_lines(self.verbosity, records@)), PADDING as int)
                is Some ==> (r matches Ok(s) && s@ == tab_aligned(
                output_text(record_lines(self.verbosity, records@)),
                PADDING as int,
            )->Some_0),
            tab_aligned(output_text(record_lines(self.verbosity, records@)), PADDING as int)
                is None ==> (r matches Err(e) && e is Io),
            records@.len() == 0 ==> (r matches Ok(s) && s@ == seq!['\n']),
    {
        let mut printer = Printer::new(self.verbosity);
        let n = records.len();
        let mut i: usize = 0;
        while i < n
            invariant
                i <= n,
                n == records@.len(),
                printer.verbosity == self.verbosity,
                printer.lines() == record_lines(self.verbosity, records@.take(i as int)),
            decreases n - i,
        {
            printer.queue(&records[i]);
            proof {
                assert(record_lines(self.verbosity, records@.take(i + 1)) =~~= record_lines(
                    self.verbosity,
                    records@.take(i as int),
                ).push(records@[i as int].line(self.verbosity)));
            }
            i += 1;
        }
        proof {
            assert(records@.take(n as int) =~= records@);
            if records@.len() == 0 {
                assert(output_text(record_lines(self.verbosity, records@)) =~= seq!['\n']);
                assert(forall|j: int|
                    0 <= j < output_text(record_lines(self.verbosity, records@)).len()
                        ==> output_text(record_lines(self.verbosity, records@))[j] != '\t');
            }
        }
        printer.show()
    }
}

} // verus!
