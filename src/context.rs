use vstd::prelude::*;
use std::collections::HashMap;
use crate::assembler::{labels_resolved, plain, CompiledBlock, InstAssembler};
use crate::encode::encoded;
use crate::error::{Error, ErrorKind};
use crate::flags::set_var_seq;
use crate::guest::GuestInst;
use crate::inst::{Entry, HostInst, PlainOp};
use crate::parser::{inst_continues, inst_entries, inst_error, inst_labels, parse_inst};
use crate::registers::Layout;

verus! {

broadcast use vstd::std_specs::hash::group_hash_axioms;

/// The guest address at which the code segment is loaded.
pub const TEXT_OFFSET: u64 = 0x10000;

/// The largest number of guest instructions a context holds.
pub const MAX_WORDS: usize = 0x1000_0000;

/// The guest program counter of the instruction at index `idx`.
pub open spec fn pc_of(idx: nat) -> u64 {
    (TEXT_OFFSET + idx * 4) as u64
}

/// The host code of the block that starts at instruction `idx`, given the number of labels
/// made before it, without the final return; or why it cannot be translated.
pub open spec fn block_from(program: Seq<Option<GuestInst>>, layout: Layout, idx: nat, count: u64) -> Result<
    Seq<Entry>,
    ErrorKind,
>
    decreases program.len() - idx,
{
    if idx >= program.len() {
        Ok(Seq::empty())
    } else {
        let set_pc = plain(set_var_seq(pc_of(idx), layout.pc));
        match program[idx as int] {
            None => Err(ErrorKind::Decode),
            Some(inst) => match inst_error(inst@.0, inst@.1) {
                Some(k) => Err(k),
                None => {
                    let here = set_pc + inst_entries(inst@.0, inst@.1, layout, count);
                    if !inst_continues(inst@.0) {
                        Ok(here)
                    } else {
                        match block_from(program, layout, idx + 1, (count + inst_labels(inst@.0)) as u64) {
                            Ok(rest) => Ok(here + rest),
                            Err(k) => Err(k),
                        }
                    }
                },
            },
        }
    }
}

/// The entry that ends every block.
pub open spec fn ret_entry() -> Entry {
    Entry { inst: HostInst::Plain { op: PlainOp::Ret }, label: 0 }
}

/// The host code of the block entered at guest byte address `addr`, or why it cannot be
/// translated.
pub open spec fn translated(program: Seq<Option<GuestInst>>, layout: Layout, addr: usize) -> Result<
    Seq<Entry>,
    ErrorKind,
> {
    match block_from(program, layout, (addr / 4) as nat, 0) {
        Ok(s) => Ok(s.push(ret_entry())),
        Err(k) => Err(k),
    }
}

/// The target of a taken branch: the index-relative byte address `relative` bytes from
/// the instruction at guest address `pc`, if it is one.
pub open spec fn branch_target_spec(pc: u64, relative: i64) -> Option<usize> {
    let t = pc - TEXT_OFFSET + relative;
    if pc >= TEXT_OFFSET && 0 <= t <= i64::MAX {
        Some(t as usize)
    } else {
        None
    }
}

/// The execution context: the decoded guest program, where its register file lives and
/// the blocks compiled so far, keyed by entry address.
pub struct Context {
    program: Vec<Option<GuestInst>>,
    layout: Layout,
    cached_functions: HashMap<usize, CompiledBlock>,
}

impl Context {
    pub closed spec fn program(&self) -> Seq<Option<GuestInst>> {
        self.program@
    }

    pub closed spec fn layout(&self) -> Layout {
        self.layout
    }

    /// The compiled blocks, by entry address.
    pub closed spec fn cache(&self) -> Map<usize, CompiledBlock> {
        self.cached_functions@
    }

    /// Every cached block is the translation of its entry address.
    pub open spec fn wf(&self) -> bool {
        &&& self.program().len() <= MAX_WORDS
        &&& self.layout().wf()
        &&& forall|a: usize| #[trigger] self.cache().contains_key(a) ==> translated(self.program(), self.layout(), a)
            == Ok::<Seq<Entry>, ErrorKind>(self.cache()[a].source()) && self.cache()[a].bytes() == encoded(
            self.cache()[a].source(),
        )
    }

    /// A context for `program`, with no block compiled yet.
    pub fn new(program: Vec<Option<GuestInst>>, layout: Layout) -> (r: Context)
        requires
            program@.len() <= MAX_WORDS,
            layout.wf(),
        ensures
            r.wf(),
            r.program() == program@,
            r.layout() == layout,
            r.cache() == Map::<usize, CompiledBlock>::empty(),
    {
        Context { program, layout, cached_functions: HashMap::new() }
    }

    /// Places the register file and the context at new addresses; refused (returns
    /// `false`, nothing changed) once a block that embeds the old ones is compiled, or
    /// when the new cells are not distinct.
    pub fn set_layout(&mut self, layout: Layout) -> (r: bool)
        requires
            old(self).wf(),
        ensures
            final(self).wf(),
            r == (old(self).cache() == Map::<usize, CompiledBlock>::empty() && layout.wf()),
            final(self).layout() == (if r { layout } else { old(self).layout() }),
            final(self).program() == old(self).program(),
            final(self).cache() == old(self).cache(),
    {
        if !layout.is_wf() {
            return false;
        }
        if self.cached_functions.len() == 0 {
            assert(self.cache() =~= Map::<usize, CompiledBlock>::empty());
            self.layout = layout;
            true
        } else {
            assert(self.cache().dom().len() > 0);
            false
        }
    }

    /// The addresses the generated code uses.
    pub fn get_layout(&self) -> (r: Layout)
        ensures
            r == self.layout(),
    {
        self.layout
    }

    /// Whether the block entered at `addr` is compiled.
    pub fn is_cached(&self, addr: usize) -> (r: bool)
        ensures
            r == self.cache().contains_key(addr),
    {
        self.cached_functions.contains_key(&addr)
    }

    /// The compiled block entered at `addr`, if there is one.
    pub fn cached(&self, addr: usize) -> (r: Option<&CompiledBlock>)
        ensures
            match r {
                Some(b) => self.cache().contains_key(addr) && *b == self.cache()[addr],
                None => !self.cache().contains_key(addr),
            },
    {
        self.cached_functions.get(&addr)
    }

    /// Translates the block entered at guest byte address `addr`: for each instruction
    /// from there on, code that sets the program counter, then the instruction's code,
    /// until a branch or the end of the program; then a return.
    pub fn translate(&self, addr: usize) -> (r: Result<InstAssembler, Error>)
        requires
            self.wf(),
        ensures
            match translated(self.program(), self.layout(), addr) {
                Ok(s) => r is Ok && r->Ok_0@ == s && r->Ok_0.wf() && labels_resolved(s),
                Err(k) => r is Err && r->Err_0.kind == k,
            },
    {
        let mut builder = InstAssembler::new();
        let len = self.program.len();
        let start = addr / 4;
        let mut inst_index: usize = start;
        let mut going = true;
        proof {
            if start >= len {
                assert(builder@ + Seq::<Entry>::empty() =~= builder@);
            }
        }
        while going && inst_index < len
            invariant
                len == self.program@.len(),
                len <= MAX_WORDS,
                self.wf(),
                start == addr / 4,
                start <= inst_index <= len || (start >= len && inst_index == start),
                builder.wf(),
                labels_resolved(builder@),
                builder.label_count() <= 2 * (inst_index - start) + (if going { 0int } else { 2int }),
                going ==> block_from(self.program@, self.layout, start as nat, 0) == match block_from(
                    self.program@,
                    self.layout,
                    inst_index as nat,
                    builder.label_count(),
                ) {
                    Ok(rest) => Ok(builder@ + rest),
                    Err(k) => Err::<Seq<Entry>, ErrorKind>(k),
                },
                !going ==> block_from(self.program@, self.layout, start as nat, 0) == Ok::<
                    Seq<Entry>,
                    ErrorKind,
                >(builder@),
            decreases len - inst_index + (if going { 1int } else { 0int }),
        {
            let pc = TEXT_OFFSET + inst_index as u64 * 4;
            let ghost before = builder@;
            let ghost c0 = builder.label_count();
            assert(going);
            builder.emit_set_var(pc, self.layout.pc);
            let inst = match &self.program[inst_index] {
                Some(inst) => inst,
                None => {
                    assert(block_from(self.program@, self.layout, inst_index as nat, c0) == Err::<Seq<Entry>, ErrorKind>(ErrorKind::Decode));
                    assert(block_from(self.program@, self.layout, start as nat, 0) == Err::<Seq<Entry>, ErrorKind>(ErrorKind::Decode));
                    return Err(Error::with_kind(ErrorKind::Decode, "Undecodable instruction".to_owned()));
                },
            };
            let should_continue = match parse_inst(&self.layout, &mut builder, inst) {
                Ok(c) => c,
                Err(e) => {
                    assert(block_from(self.program@, self.layout, inst_index as nat, c0) == Err::<Seq<Entry>, ErrorKind>(e.kind));
                    assert(block_from(self.program@, self.layout, start as nat, 0) == Err::<Seq<Entry>, ErrorKind>(e.kind));
                    return Err(e);
                },
            };
            proof {
                let set_pc = plain(set_var_seq(pc, self.layout.pc));
                let here = inst_entries(inst@.0, inst@.1, self.layout, c0);
                crate::labels::lemma_set_var_resolved(pc, self.layout.pc);
                crate::labels::lemma_inst_resolved(inst@.0, inst@.1, self.layout, c0);
                crate::labels::lemma_resolved_concat(set_pc, here);
                crate::labels::lemma_resolved_concat(before, set_pc + here);
                assert(builder@ =~= before + (set_pc + here));
                if should_continue {
                    match block_from(self.program@, self.layout, inst_index as nat + 1, builder.label_count()) {
                        Ok(rest) => {
                            assert(before + ((set_pc + here) + rest) =~= builder@ + rest);
                        },
                        Err(_) => {},
                    }
                }
            }
            if !should_continue {
                going = false;
            } else {
                inst_index = inst_index + 1;
            }
        }
        proof {
            if going {
                assert(builder@ + Seq::<Entry>::empty() =~= builder@);
            }
            crate::labels::lemma_resolved_concat(builder@, seq![ret_entry()]);
            assert(builder@ + seq![ret_entry()] =~= builder@.push(ret_entry()));
        }
        builder.add(HostInst::Plain { op: PlainOp::Ret });
        Ok(builder)
    }

    /// Makes sure the block entered at `addr` is compiled. A cached block is reused as it
    /// is (`Ok(true)`); otherwise the block is translated, finalized and cached
    /// (`Ok(false)`). On an error nothing is cached.
    pub fn prepare(&mut self, addr: usize) -> (r: Result<bool, Error>)
        requires
            old(self).wf(),
        ensures
            final(self).wf(),
            final(self).program() == old(self).program(),
            final(self).layout() == old(self).layout(),
            old(self).cache().contains_key(addr) ==> r == Ok::<bool, Error>(true) && final(self).cache()
                == old(self).cache(),
            !old(self).cache().contains_key(addr) ==> match r {
                Ok(hit) => {
                    &&& !hit
                    &&& final(self).cache() == old(self).cache().insert(addr, final(self).cache()[addr])
                    &&& translated(old(self).program(), old(self).layout(), addr) == Ok::<Seq<Entry>, ErrorKind>(
                        final(self).cache()[addr].source(),
                    )
                    &&& final(self).cache()[addr].bytes() == encoded(final(self).cache()[addr].source())
                },
                Err(e) => {
                    &&& final(self).cache() == old(self).cache()
                    &&& match translated(old(self).program(), old(self).layout(), addr) {
                        Ok(_) => e.kind == ErrorKind::Build,
                        Err(k) => e.kind == k,
                    }
                },
            },
    {
        if self.cached_functions.contains_key(&addr) {
            return Ok(true);
        }
        let builder = match self.translate(addr) {
            Ok(b) => b,
            Err(e) => return Err(e),
        };
        let block = match builder.finalize() {
            Ok(b) => b,
            Err(e) => return Err(e),
        };
        let ghost before = self.cache();
        self.cached_functions.insert(addr, block);
        assert(self.cache()[addr] == block);
        assert forall|a: usize| #[trigger] self.cache().contains_key(a) implies translated(self.program(), self.layout(), a)
            == Ok::<Seq<Entry>, ErrorKind>(self.cache()[a].source()) && self.cache()[a].bytes() == encoded(
            self.cache()[a].source(),
        ) by {
            if a != addr {
                assert(before.contains_key(a));
            }
        }
        Ok(false)
    }
}

/// The entry address of the block that a taken branch goes to: `relative` bytes from the
/// branch at guest address `pc`, as a byte offset into the code segment.
pub fn branch_target(pc: u64, relative: i64) -> (r: Option<usize>)
    ensures
        r == branch_target_spec(pc, relative),
{
    if pc < TEXT_OFFSET {
        return None;
    }
    let base = pc - TEXT_OFFSET;
    let target: u64 = if relative >= 0 {
        let forward = relative as u64;
        if base > i64::MAX as u64 - forward {
            return None;
        }
        base + forward
    } else {
        let back = (-(relative + 1)) as u64 + 1;
        if base < back {
            return None;
        }
        base - back
    };
    if target > i64::MAX as u64 {
        return None;
    }
    Some(target as usize)
}

/// A block found in the cache is the very code that translating its entry address
/// afresh produces, and its region holds that code's encoding, so running it again has
/// the effects of a fresh translation.
pub proof fn lemma_cached_block_is_fresh_translation(ctx: &Context, addr: usize)
    requires
        ctx.wf(),
        ctx.cache().contains_key(addr),
    ensures
        translated(ctx.program(), ctx.layout(), addr) == Ok::<Seq<Entry>, ErrorKind>(ctx.cache()[addr].source()),
        ctx.cache()[addr].bytes() == encoded(translated(ctx.program(), ctx.layout(), addr)->Ok_0),
{
}

} // verus!
