use vstd::prelude::*;
use iced_x86::{IcedError, Instruction, Register};
use memmap::Mmap;
use crate::encode::{
    copy_into, encoded, iced_encode, make_exec, map_anon, iced_error_message, iced_register, iced_set_ip, iced_with,
    iced_with1, iced_with2_imm, iced_with2_imm64, iced_with2_load, iced_with2_regs,
    iced_with2_store, iced_with_branch, io_error_message, region_bytes,
};
use crate::error::{Error, ErrorKind};
use crate::host::{HostReg, Width};
use crate::inst::{BranchKind, Entry, HostInst};

verus! {

/// A symbolic branch target of one block, resolved when the block is finalized.
#[derive(Debug)]
pub struct Label {
    id: u64,
}

impl View for Label {
    type V = u64;

    closed spec fn view(&self) -> u64 {
        self.id
    }
}

impl Label {
    pub(crate) fn new(id: u64) -> (r: Label)
        ensures
            r@ == id,
    {
        Label { id }
    }

    /// The identifier of this label within its block.
    pub fn id(&self) -> (r: u64)
        ensures
            r == self@,
    {
        self.id
    }
}

/// The entries of `insts`, each bound to no label.
pub open spec fn plain(insts: Seq<HostInst>) -> Seq<Entry> {
    insts.map_values(|inst: HostInst| Entry { inst, label: 0 })
}

/// Whether some instruction of `entries` is bound to label `id`.
pub open spec fn is_bound(entries: Seq<Entry>, id: u64) -> bool {
    exists|i: int| 0 <= i < entries.len() && entries[i].label == id
}

/// Whether no label is bound to two instructions.
pub open spec fn bound_once(entries: Seq<Entry>) -> bool {
    forall|i: int, j: int|
        0 <= i < entries.len() && 0 <= j < entries.len() && entries[i].label != 0
            && entries[i].label == entries[j].label ==> i == j
}

/// Whether every branch of `entries` targets a label bound in `entries`.
pub open spec fn labels_resolved(entries: Seq<Entry>) -> bool {
    forall|i: int|
        0 <= i < entries.len() ==> (#[trigger] entries[i].inst matches HostInst::Branch { label, .. }
            ==> is_bound(entries, label))
}

/// Whether the instructions and labels of `entries` stay within the first `count` labels.
pub open spec fn entries_wf(entries: Seq<Entry>, count: u64) -> bool {
    &&& bound_once(entries)
    &&& forall|i: int|
        0 <= i < entries.len() ==> {
            &&& #[trigger] entries[i].label <= count
            &&& entries[i].inst.wf()
            &&& (entries[i].inst matches HostInst::Branch { label, .. } ==> 1 <= label <= count)
        }
}

/// The relocatable assembler of one block: an ordered list of host instructions, some
/// bound to labels, and the number of labels made so far.
#[derive(Debug)]
pub struct InstAssembler {
    insts: Vec<Entry>,
    label_counter: u64,
}

impl View for InstAssembler {
    type V = Seq<Entry>;

    closed spec fn view(&self) -> Seq<Entry> {
        self.insts@
    }
}

/// The result of finalizing a block: an executable region and the instructions it
/// was laid out from.
pub struct CompiledBlock {
    code: Mmap,
    source: Ghost<Seq<Entry>>,
}

impl CompiledBlock {
    /// The instructions this block was compiled from.
    pub closed spec fn source(&self) -> Seq<Entry> {
        self.source@
    }

    /// The bytes of the executable region.
    pub closed spec fn bytes(&self) -> Seq<u8> {
        region_bytes(self.code)
    }

    /// The executable region.
    pub fn code(&self) -> (r: &Mmap)
        ensures
            region_bytes(*r) == self.bytes(),
    {
        &self.code
    }
}

impl InstAssembler {
    /// The number of labels created so far; label identifiers run from 1 to it.
    pub closed spec fn label_count(&self) -> u64 {
        self.label_counter
    }

    pub open spec fn wf(&self) -> bool {
        entries_wf(self@, self.label_count())
    }

    /// An empty block.
    pub fn new() -> (r: InstAssembler)
        ensures
            r@ == Seq::<Entry>::empty(),
            r.label_count() == 0,
            r.wf(),
    {
        InstAssembler { insts: Vec::new(), label_counter: 0 }
    }

    /// The instructions so far, in order, with their labels.
    pub fn entries(&self) -> (r: &Vec<Entry>)
        ensures
            r@ == self@,
    {
        &self.insts
    }

    /// Appends an instruction bound to no label.
    pub fn add(&mut self, inst: HostInst)
        requires
            old(self).wf(),
            inst.wf(),
            inst matches HostInst::Branch { label, .. } ==> 1 <= label <= old(self).label_count(),
        ensures
            final(self)@ == old(self)@.push(Entry { inst, label: 0 }),
            final(self).label_count() == old(self).label_count(),
            final(self).wf(),
    {
        self.insts.push(Entry { inst, label: 0 });
        assert(forall|i: int| 0 <= i < old(self)@.len() ==> self@[i] == old(self)@[i]);
    }

    /// Appends an instruction and binds `label` to it.
    pub fn add_with_label(&mut self, inst: HostInst, label: &Label)
        requires
            old(self).wf(),
            inst.wf(),
            !(inst is Branch),
            1 <= label@ <= old(self).label_count(),
            !is_bound(old(self)@, label@),
        ensures
            final(self)@ == old(self)@.push(Entry { inst, label: label@ }),
            final(self).label_count() == old(self).label_count(),
            final(self).wf(),
    {
        self.insts.push(Entry { inst, label: label.id });
        assert(forall|i: int| 0 <= i < old(self)@.len() ==> self@[i] == old(self)@[i]);
    }

    /// Appends a branch to `label`, which may be bound before or after it.
    pub fn add_branch(&mut self, kind: BranchKind, label: &Label)
        requires
            old(self).wf(),
            1 <= label@ <= old(self).label_count(),
        ensures
            final(self)@ == old(self)@.push(
                Entry { inst: HostInst::Branch { kind, label: label@ }, label: 0 },
            ),
            final(self).label_count() == old(self).label_count(),
            final(self).wf(),
    {
        self.add(HostInst::Branch { kind, label: label.id });
    }

    /// Appends each of `insts` in order, bound to no label.
    pub fn add_all(&mut self, insts: &Vec<HostInst>)
        requires
            old(self).wf(),
            forall|i: int| 0 <= i < insts@.len() ==> (#[trigger] insts@[i]).wf() && !(insts@[i] is Branch),
        ensures
            final(self)@ == old(self)@ + plain(insts@),
            final(self).label_count() == old(self).label_count(),
            final(self).wf(),
    {
        let mut i: usize = 0;
        while i < insts.len()
            invariant
                self.wf(),
                self.label_count() == old(self).label_count(),
                i <= insts@.len(),
                forall|k: int| 0 <= k < insts@.len() ==> (#[trigger] insts@[k]).wf() && !(insts@[k] is Branch),
                self@ == old(self)@ + plain(insts@.subrange(0, i as int)),
            decreases insts@.len() - i,
        {
            self.add(insts[i]);
            assert(insts@.subrange(0, i + 1) == insts@.subrange(0, i as int).push(insts@[i as int]));
            assert(plain(insts@.subrange(0, i + 1)) =~= plain(insts@.subrange(0, i as int)).push(
                Entry { inst: insts@[i as int], label: 0 },
            ));
            i = i + 1;
        }
        assert(insts@.subrange(0, i as int) =~= insts@);
    }

    /// Makes a fresh label, bound to no instruction yet.
    pub fn create_label(&mut self) -> (r: Label)
        requires
            old(self).wf(),
            old(self).label_count() < u64::MAX,
        ensures
            final(self)@ == old(self)@,
            final(self).label_count() == old(self).label_count() + 1,
            r@ == final(self).label_count(),
            !is_bound(final(self)@, r@),
            final(self).wf(),
    {
        self.label_counter = self.label_counter + 1;
        Label::new(self.label_counter)
    }

    /// Lays out the block, resolves its labels and places the machine code, `encoded` of
    /// the entries, in a fresh executable region. The encoder or the mapping may fail.
    pub fn finalize(self) -> (r: Result<CompiledBlock, Error>)
        requires
            self.wf(),
            labels_resolved(self@),
        ensures
            r matches Ok(b) ==> b.source() == self@ && b.bytes() == encoded(self@),
            r matches Err(e) ==> e.kind == ErrorKind::Build,
    {
        proof {
            assert forall|i: int| 0 <= i < self@.len() implies (#[trigger] self@[i]).inst.wf() by {
                assert(self@[i].label <= self.label_count());
            }
        }
        let buf = match iced_encode(&self.insts) {
            Ok(buf) => buf,
            Err(err) => return Err(Error::new(iced_error_message(&err))),
        };
        let mut region = match map_anon(buf.len()) {
            Ok(region) => region,
            Err(err) => return Err(Error::new(io_error_message(&err))),
        };
        copy_into(&mut region, &buf);
        match make_exec(region) {
            Ok(code) => Ok(CompiledBlock { code, source: Ghost(self@) }),
            Err(err) => Err(Error::new(io_error_message(&err))),
        }
    }
}

/// The register of the encoder that `reg` names.
fn to_iced_register(reg: HostReg) -> Register
    requires
        reg.wf(),
{
    let slot: u32 = match reg.width {
        Width::B8 => if reg.num < 4 { reg.num as u32 } else { reg.num as u32 + 4 },
        _ => reg.num as u32,
    };
    iced_register(reg.width, slot)
}

/// The encoder's form of one entry; the label, if any, becomes its address.
pub(crate) fn to_iced(entry: &Entry) -> Result<Instruction, IcedError>
    requires
        entry.inst.wf(),
{
    let made = match entry.inst {
        HostInst::Plain { op } => Ok(iced_with(op)),
        HostInst::Unary { op, reg } => iced_with1(op, to_iced_register(reg)),
        HostInst::RegReg { op, dst, src } => iced_with2_regs(
            op,
            to_iced_register(dst),
            to_iced_register(src),
        ),
        HostInst::RegImm { op, dst, imm } => iced_with2_imm(op, to_iced_register(dst), imm),
        HostInst::MovImm { dst, imm } => iced_with2_imm64(to_iced_register(dst), imm),
        HostInst::Load { dst, base } => iced_with2_load(
            to_iced_register(dst),
            to_iced_register(base),
        ),
        HostInst::Store { base, src } => iced_with2_store(
            to_iced_register(base),
            to_iced_register(src),
        ),
        HostInst::Branch { kind, label } => iced_with_branch(kind, label),
    };
    match made {
        Ok(inst) => {
            let mut inst = inst;
            if entry.label != 0 {
                iced_set_ip(&mut inst, entry.label);
            }
            Ok(inst)
        },
        Err(err) => Err(err),
    }
}

} // verus!
