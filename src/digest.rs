//! CRC32 of the alert handler registers.
use vstd::prelude::*;

use crate::bytes::{lemma_words_bytes_injective, words_bytes, words_to_le_bytes};
use crate::regs::{AlertClassRegs, AlertRegs, N_CLASSES};

verus! {

/// The CRC-32/ISO-HDLC checksum of a byte sequence (polynomial 0x04c11db7,
/// reflected, initial value and final xor 0xffffffff).
pub uninterp spec fn crc32_of(data: Seq<u8>) -> u32;

/// Relies on `crc::Crc::<u32>::new(&crc::CRC_32_ISO_HDLC).checksum`: the
/// CRC-32/ISO-HDLC of the bytes, which depends on the bytes alone.
#[verifier::external_body]
fn crc32_iso_hdlc(data: &[u8]) -> (r: u32)
    ensures
        r == crc32_of(data@),
{
    crc::Crc::<u32>::new(&crc::CRC_32_ISO_HDLC).checksum(data)
}

/// CRC-32/ISO-HDLC of `data`, the checksum that the register CRC32 uses.
pub fn checksum_bytes(data: &[u8]) -> (r: u32)
    ensures
        r == crc32_of(data@),
{
    crc32_iso_hdlc(data)
}

impl AlertClassRegs {
    /// The class registers in checksum order.
    pub open spec fn words(self) -> Seq<u32> {
        seq![self.regwen, self.ctrl, self.accum_thresh, self.timeout_cyc] + self.phase_cycs@
    }
}

/// The registers of each class, in class order.
pub open spec fn class_regs_words(c: Seq<AlertClassRegs>) -> Seq<u32>
    decreases c.len(),
{
    if c.len() == 0 {
        seq![]
    } else {
        class_regs_words(c.drop_last()) + c.last().words()
    }
}

impl AlertRegs {
    /// All registers in checksum order: alert write enables, enables and
    /// classes, then the same of the local alerts, then classes A to D.
    pub open spec fn words(self) -> Seq<u32> {
        self.regwen@ + self.en@ + self.class@ + self.loc_regwen@ + self.loc_en@ + self.loc_class@
            + class_regs_words(self.class_regs@)
    }

    /// The bytes that the CRC32 covers: each register word little-endian.
    pub open spec fn crc_input(self) -> Seq<u8> {
        words_bytes(self.words())
    }

    /// CRC32 of the register values, in the order and encoding of `crc_input`.
    pub fn crc32(self) -> (r: u32)
        ensures
            r == crc32_of(self.crc_input()),
    {
        let mut ws: Vec<u32> = Vec::new();
        push_words(&mut ws, self.regwen.as_slice());
        push_words(&mut ws, self.en.as_slice());
        push_words(&mut ws, self.class.as_slice());
        push_words(&mut ws, self.loc_regwen.as_slice());
        push_words(&mut ws, self.loc_en.as_slice());
        push_words(&mut ws, self.loc_class.as_slice());
        let ghost head = ws@;
        let mut k: usize = 0;
        while k < N_CLASSES
            invariant
                0 <= k <= N_CLASSES,
                head.len() == 231,
                ws@ == head + class_regs_words(self.class_regs@.take(k as int)),
                ws@.len() == 231 + 8 * k,
            decreases N_CLASSES - k,
        {
            let c = self.class_regs[k];
            let ghost before = ws@;
            ws.push(c.regwen);
            ws.push(c.ctrl);
            ws.push(c.accum_thresh);
            ws.push(c.timeout_cyc);
            push_words(&mut ws, c.phase_cycs.as_slice());
            assert(self.class_regs@.take(k + 1).drop_last() =~= self.class_regs@.take(k as int));
            assert(ws@ =~= before + c.words());
            k = k + 1;
        }
        assert(self.class_regs@.take(N_CLASSES as int) =~= self.class_regs@);
        assert(ws@ =~= self.words());
        let bytes = words_to_le_bytes(ws.as_slice());
        crc32_iso_hdlc(bytes.as_slice())
    }
}

/// Class register blocks with the same words are field-wise equal.
proof fn lemma_class_regs_words_injective(c: Seq<AlertClassRegs>, d: Seq<AlertClassRegs>)
    requires
        c.len() == d.len(),
        class_regs_words(c) == class_regs_words(d),
    ensures
        forall|k: int| 0 <= k < c.len() ==> (#[trigger] c[k]).same(d[k]),
    decreases c.len(),
{
    if c.len() > 0 {
        lemma_class_regs_words_len(c.drop_last());
        lemma_class_regs_words_len(d.drop_last());
        let wc = class_regs_words(c.drop_last());
        let wd = class_regs_words(d.drop_last());
        let n = wc.len() as int;
        assert((wc + c.last().words()).subrange(0, n) =~= wc);
        assert((wd + d.last().words()).subrange(0, n) =~= wd);
        assert((wc + c.last().words()).subrange(n, n + 8) =~= c.last().words());
        assert((wd + d.last().words()).subrange(n, n + 8) =~= d.last().words());
        lemma_class_regs_words_injective(c.drop_last(), d.drop_last());
        let x = c.last();
        let y = d.last();
        assert(x.words()[0] == y.words()[0]);
        assert(x.words()[1] == y.words()[1]);
        assert(x.words()[2] == y.words()[2]);
        assert(x.words()[3] == y.words()[3]);
        assert(x.phase_cycs@ =~= x.words().subrange(4, 8));
        assert(y.phase_cycs@ =~= y.words().subrange(4, 8));
        assert forall|k: int| 0 <= k < c.len() implies (#[trigger] c[k]).same(d[k]) by {
            if k < c.len() - 1 {
                assert(c.drop_last()[k] == c[k]);
                assert(d.drop_last()[k] == d[k]);
            }
        }
    }
}

/// Eight words per class.
proof fn lemma_class_regs_words_len(c: Seq<AlertClassRegs>)
    ensures
        class_regs_words(c).len() == 8 * c.len(),
    decreases c.len(),
{
    if c.len() > 0 {
        lemma_class_regs_words_len(c.drop_last());
    }
}

/// The CRC32 depends on the register values alone: registers with equal
/// fields have equal checksums.
pub proof fn lemma_crc32_determined_by_fields(a: AlertRegs, b: AlertRegs)
    requires
        a.same(b),
    ensures
        a.crc_input() == b.crc_input(),
        crc32_of(a.crc_input()) == crc32_of(b.crc_input()),
{
    assert forall|k: int| 0 <= k < N_CLASSES implies #[trigger] a.class_regs[k] == b.class_regs[k] by {
        assert(a.class_regs[k].same(b.class_regs[k]));
        assert(a.class_regs[k].phase_cycs =~= b.class_regs[k].phase_cycs);
    }
    assert(a.class_regs@ =~= b.class_regs@);
    assert(a.words() =~= b.words());
}

/// Registers that differ in any field give different CRC32 inputs: the
/// serialization loses nothing.
pub proof fn lemma_crc_input_injective(a: AlertRegs, b: AlertRegs)
    requires
        a.crc_input() == b.crc_input(),
    ensures
        a.same(b),
{
    lemma_class_regs_words_len(a.class_regs@);
    lemma_class_regs_words_len(b.class_regs@);
    lemma_words_bytes_injective(a.words(), b.words());
    let wa = a.words();
    let wb = b.words();
    assert(a.regwen@ =~= wa.subrange(0, 70));
    assert(b.regwen@ =~= wb.subrange(0, 70));
    assert(a.en@ =~= wa.subrange(70, 140));
    assert(b.en@ =~= wb.subrange(70, 140));
    assert(a.class@ =~= wa.subrange(140, 210));
    assert(b.class@ =~= wb.subrange(140, 210));
    assert(a.loc_regwen@ =~= wa.subrange(210, 217));
    assert(b.loc_regwen@ =~= wb.subrange(210, 217));
    assert(a.loc_en@ =~= wa.subrange(217, 224));
    assert(b.loc_en@ =~= wb.subrange(217, 224));
    assert(a.loc_class@ =~= wa.subrange(224, 231));
    assert(b.loc_class@ =~= wb.subrange(224, 231));
    assert(class_regs_words(a.class_regs@) =~= wa.subrange(231, 263));
    assert(class_regs_words(b.class_regs@) =~= wb.subrange(231, 263));
    lemma_class_regs_words_injective(a.class_regs@, b.class_regs@);
}

/// Appends `src` to `out`.
fn push_words(out: &mut Vec<u32>, src: &[u32])
    ensures
        final(out)@ == old(out)@ + src@,
{
    let mut i: usize = 0;
    while i < src.len()
        invariant
            0 <= i <= src@.len(),
            out@ == old(out)@ + src@.take(i as int),
        decreases src@.len() - i,
    {
        out.push(src[i]);
        assert(src@.take(i + 1) =~= src@.take(i as int).push(src@[i as int]));
        i = i + 1;
    }
    assert(src@.take(src@.len() as int) =~= src@);
}

} // verus!
