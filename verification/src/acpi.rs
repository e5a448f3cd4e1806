//! ACPI tables: their signatures, the system descriptor table header, the
//! root table's entries, and the interrupt source overrides of the MADT.
use vstd::prelude::*;
use vstd::utf8::valid_utf8;
use crate::gsi::{GsiInfo, GSI_COUNT};

verus! {

/// Size in bytes of a system descriptor table header.
pub const SDT_HEADER_LEN: usize = 36;
/// Size in bytes of the fixed part of the MADT (header, local APIC address, flags).
pub const MADT_FIXED_LEN: usize = 44;
/// MADT entry type of an interrupt source override.
pub const MADT_ENTRY_ISO: u8 = 2;
/// Size in bytes of an interrupt source override entry.
pub const ISO_ENTRY_LEN: usize = 10;

/// The ACPI tables the kernel knows by signature.
#[derive(Debug, Clone, Copy, PartialEq, Eq)]
pub enum AcpiTableType {
    /// MADT Table
    Madt,
    /// BERT Table
    Bert,
    /// CPEP Table
    Cpep,
    /// DSDT Table
    Dsdt,
    /// ECDT Table
    Ecdt,
    /// EINJ Table
    Einj,
    /// ERST Table
    Erst,
    /// FADT Table
    Fadt,
    /// FACS Table
    Facs,
    /// HEST Table
    Hest,
    /// MSCT Table
    Msct,
    /// MPST Table
    Mpst,
    /// PMTT Table
    Pmtt,
    /// PSDT Table
    Psdt,
    /// RASF Table
    Rasf,
    /// RSDT Table
    Rsdt,
    /// SBST Table
    Sbst,
    /// SLIT Table
    Slit,
    /// SRAT Table
    Srat,
    /// SSDT Table
    Ssdt,
    /// XSDT Table
    Xsdt,
}

/// The four-letter signature of each table type.
pub open spec fn signature_spec(t: AcpiTableType) -> Seq<char> {
    match t {
        AcpiTableType::Madt => seq!['A', 'P', 'I', 'C'],
        AcpiTableType::Bert => seq!['B', 'E', 'R', 'T'],
        AcpiTableType::Cpep => seq!['C', 'P', 'E', 'P'],
        AcpiTableType::Dsdt => seq!['D', 'S', 'D', 'T'],
        AcpiTableType::Ecdt => seq!['E', 'C', 'D', 'T'],
        AcpiTableType::Einj => seq!['E', 'I', 'N', 'J'],
        AcpiTableType::Erst => seq!['E', 'R', 'S', 'T'],
        AcpiTableType::Fadt => seq!['F', 'A', 'C', 'P'],
        AcpiTableType::Facs => seq!['F', 'A', 'C', 'S'],
        AcpiTableType::Hest => seq!['H', 'E', 'S', 'T'],
        AcpiTableType::Msct => seq!['M', 'S', 'C', 'T'],
        AcpiTableType::Mpst => seq!['M', 'P', 'S', 'T'],
        AcpiTableType::Pmtt => seq!['P', 'M', 'T', 'T'],
        AcpiTableType::Psdt => seq!['P', 'S', 'D', 'T'],
        AcpiTableType::Rasf => seq!['R', 'A', 'S', 'F'],
        AcpiTableType::Rsdt => seq!['R', 'S', 'D', 'T'],
        AcpiTableType::Sbst => seq!['S', 'B', 'S', 'T'],
        AcpiTableType::Slit => seq!['S', 'L', 'I', 'T'],
        AcpiTableType::Srat => seq!['S', 'R', 'A', 'T'],
        AcpiTableType::Ssdt => seq!['S', 'S', 'D', 'T'],
        AcpiTableType::Xsdt => seq!['X', 'S', 'D', 'T'],
    }
}

/// Whether four header bytes spell the signature of a table type.
pub open spec fn signature_matches_spec(sig: Seq<u8>, t: AcpiTableType) -> bool {
    sig.len() == 4 && forall|i: int| 0 <= i < 4 ==> #[trigger] sig[i] as char == signature_spec(t)[i]
}

impl AcpiTableType {
    /// The four-letter signature of this table type.
    pub fn signature(&self) -> (r: &'static str)
        ensures
            r@ == signature_spec(*self),
    {
        match self {
            AcpiTableType::Madt => {
                proof {
                    reveal_strlit("APIC");
                }
                "APIC"
            },
            AcpiTableType::Bert => {
                proof {
                    reveal_strlit("BERT");
                }
                "BERT"
            },
            AcpiTableType::Cpep => {
                proof {
                    reveal_strlit("CPEP");
                }
                "CPEP"
            },
            AcpiTableType::Dsdt => {
                proof {
                    reveal_strlit("DSDT");
                }
                "DSDT"
            },
            AcpiTableType::Ecdt => {
                proof {
                    reveal_strlit("ECDT");
                }
                "ECDT"
            },
            AcpiTableType::Einj => {
                proof {
                    reveal_strlit("EINJ");
                }
                "EINJ"
            },
            AcpiTableType::Erst => {
                proof {
                    reveal_strlit("ERST");
                }
                "ERST"
            },
            AcpiTableType::Fadt => {
                proof {
                    reveal_strlit("FACP");
                }
                "FACP"
            },
            AcpiTableType::Facs => {
                proof {
                    reveal_strlit("FACS");
                }
                "FACS"
            },
            AcpiTableType::Hest => {
                proof {
                    reveal_strlit("HEST");
                }
                "HEST"
            },
            AcpiTableType::Msct => {
                proof {
                    reveal_strlit("MSCT");
                }
                "MSCT"
            },
            AcpiTableType::Mpst => {
                proof {
                    reveal_strlit("MPST");
                }
                "MPST"
            },
            AcpiTableType::Pmtt => {
                proof {
                    reveal_strlit("PMTT");
                }
                "PMTT"
            },
            AcpiTableType::Psdt => {
                proof {
                    reveal_strlit("PSDT");
                }
                "PSDT"
            },
            AcpiTableType::Rasf => {
                proof {
                    reveal_strlit("RASF");
                }
                "RASF"
            },
            AcpiTableType::Rsdt => {
                proof {
                    reveal_strlit("RSDT");
                }
                "RSDT"
            },
            AcpiTableType::Sbst => {
                proof {
                    reveal_strlit("SBST");
                }
                "SBST"
            },
            AcpiTableType::Slit => {
                proof {
                    reveal_strlit("SLIT");
                }
                "SLIT"
            },
            AcpiTableType::Srat => {
                proof {
                    reveal_strlit("SRAT");
                }
                "SRAT"
            },
            AcpiTableType::Ssdt => {
                proof {
                    reveal_strlit("SSDT");
                }
                "SSDT"
            },
            AcpiTableType::Xsdt => {
                proof {
                    reveal_strlit("XSDT");
                }
                "XSDT"
            },
        }
    }

    /// Whether the four signature bytes of a table header name this table type.
    pub fn matches_signature(&self, sig: &[u8; 4]) -> (r: bool)
        ensures
            r == signature_matches_spec(sig@, *self),
    {
        let s = self.signature();
        let mut i: usize = 0;
        while i < 4
            invariant
                i <= 4,
                s@ == signature_spec(*self),
                sig@.len() == 4,
                forall|j: int| 0 <= j < i ==> #[trigger] sig@[j] as char == signature_spec(*self)[j],
            decreases 4 - i,
        {
            let c = s.get_char(i);
            if sig[i] as char != c {
                return false;
            }
            i = i + 1;
        }
        true
    }
}

/// The little-endian `u16` at byte `i`.
pub open spec fn le_u16(s: Seq<u8>, i: int) -> u16 {
    (s[i] + s[i + 1] * 256) as u16
}

/// The little-endian `u32` at byte `i`.
pub open spec fn le_u32(s: Seq<u8>, i: int) -> u32 {
    (s[i] + s[i + 1] * 256 + s[i + 2] * 65536 + s[i + 3] * 16777216) as u32
}

pub(crate) fn read_u16(b: &[u8], i: usize) -> (r: u16)
    requires
        i + 2 <= b@.len(),
    ensures
        r == le_u16(b@, i as int),
{
    b[i] as u16 + (b[i + 1] as u16) * 256
}

pub(crate) fn read_u32(b: &[u8], i: usize) -> (r: u32)
    requires
        i + 4 <= b@.len(),
    ensures
        r == le_u32(b@, i as int),
{
    b[i] as u32 + (b[i + 1] as u32) * 256 + (b[i + 2] as u32) * 65536 + (b[i + 3] as u32) * 16777216
}

/// The header that every ACPI system descriptor table starts with.
#[derive(Debug, Clone, Copy)]
pub struct AcpiSdtHeader {
    pub signature: [u8; 4],
    pub length: u32,
    pub revision: u8,
    pub checksum: u8,
    pub oem_id: [u8; 6],
    pub oem_table_id: [u8; 8],
    pub oem_revision: u32,
    pub creator_id: u32,
    pub creator_revision: u32,
}

/// Whether `h` is the header laid out in the first 36 bytes of `b`.
pub open spec fn is_header_of(h: AcpiSdtHeader, b: Seq<u8>) -> bool {
    &&& b.len() >= 36
    &&& h.signature@ == b.subrange(0, 4)
    &&& h.length == le_u32(b, 4)
    &&& h.revision == b[8]
    &&& h.checksum == b[9]
    &&& h.oem_id@ == b.subrange(10, 16)
    &&& h.oem_table_id@ == b.subrange(16, 24)
    &&& h.oem_revision == le_u32(b, 24)
    &&& h.creator_id == le_u32(b, 28)
    &&& h.creator_revision == le_u32(b, 32)
}

impl AcpiSdtHeader {
    /// Reads a header from the bytes at the start of a table; `None` when
    /// fewer than 36 bytes are given.
    pub fn from_bytes(b: &[u8]) -> (r: Option<AcpiSdtHeader>)
        ensures
            r is None <==> b@.len() < 36,
            r matches Some(h) ==> is_header_of(h, b@),
    {
        if b.len() < SDT_HEADER_LEN {
            return None;
        }
        let h = AcpiSdtHeader {
            signature: [b[0], b[1], b[2], b[3]],
            length: read_u32(b, 4),
            revision: b[8],
            checksum: b[9],
            oem_id: [b[10], b[11], b[12], b[13], b[14], b[15]],
            oem_table_id: [b[16], b[17], b[18], b[19], b[20], b[21], b[22], b[23]],
            oem_revision: read_u32(b, 24),
            creator_id: read_u32(b, 28),
            creator_revision: read_u32(b, 32),
        };
        assert(h.signature@ =~= b@.subrange(0, 4));
        assert(h.oem_id@ =~= b@.subrange(10, 16));
        assert(h.oem_table_id@ =~= b@.subrange(16, 24));
        Some(h)
    }

    /// Number of 32-bit table pointers that follow this header in a root table.
    pub fn entry_count(&self) -> (r: usize)
        requires
            self.length >= 36,
        ensures
            r == (self.length - 36) / 4,
    {
        ((self.length - 36) / 4) as usize
    }
}

/// The root system descriptor table: its header and room for its pointers.
pub struct Rsdt {
    pub header: AcpiSdtHeader,
    pub pointers_to_other_sdt: Vec<u32>,
}

impl Rsdt {
    /// Makes a root table from its header; refused unless the header's
    /// signature is `RSDT`.
    pub fn new(header: AcpiSdtHeader) -> (r: Result<Rsdt, &'static str>)
        requires
            valid_utf8(header.signature@),
            signature_matches_spec(header.signature@, AcpiTableType::Rsdt) ==> header.length >= 36,
        ensures
            r is Ok <==> signature_matches_spec(header.signature@, AcpiTableType::Rsdt),
            r matches Ok(t) ==> t.header == header && t.pointers_to_other_sdt@.len() == 0,
    {
        if !AcpiTableType::Rsdt.matches_signature(&header.signature) {
            return Err("Incorrect RSDT Signature.\nAre you sure you are trying to parse RSDT?");
        }
        let ptos = header.entry_count();
        Ok(Rsdt { header, pointers_to_other_sdt: Vec::with_capacity(ptos) })
    }
}

/// Finds the first table of the given type among the signatures of the
/// tables a root table points to, in the root table's order; returns its
/// position.
pub fn find_acpi_table(sigs: &Vec<[u8; 4]>, table_type: AcpiTableType) -> (r: Option<usize>)
    requires
        forall|i: int|
            0 <= i < sigs@.len() && (forall|j: int|
                0 <= j < i ==> !signature_matches_spec(#[trigger] sigs@[j]@, table_type))
                ==> valid_utf8(#[trigger] sigs@[i]@),
    ensures
        match r {
            Some(i) => i < sigs@.len() && signature_matches_spec(sigs@[i as int]@, table_type)
                && forall|j: int| 0 <= j < i ==> !signature_matches_spec(#[trigger] sigs@[j]@, table_type),
            None => forall|j: int| 0 <= j < sigs@.len() ==> !signature_matches_spec(#[trigger] sigs@[j]@, table_type),
        },
{
    let mut i: usize = 0;
    while i < sigs.len()
        invariant
            i <= sigs@.len(),
            forall|j: int| 0 <= j < i ==> !signature_matches_spec(#[trigger] sigs@[j]@, table_type),
        decreases sigs@.len() - i,
    {
        if table_type.matches_signature(&sigs[i]) {
            return Some(i);
        }
        i = i + 1;
    }
    None
}

/// Whether the MADT flags ask for the legacy PICs to be disabled (bit 0,
/// "PC-AT compatible").
pub fn madt_disables_legacy_pics(madt_flags: u32) -> (r: bool)
    ensures
        r == (madt_flags & 1 != 0),
{
    madt_flags & 1 != 0
}

/// An interrupt source override entry of the MADT.
#[derive(Debug, Clone, Copy, PartialEq, Eq)]
pub struct IsoRecord {
    pub bus: u8,
    pub source: u8,
    pub gsi: u32,
    pub flags: u16,
}

/// The override entry laid out at byte `pos`.
pub open spec fn iso_at(e: Seq<u8>, pos: int) -> IsoRecord {
    IsoRecord { bus: e[pos + 2], source: e[pos + 3], gsi: le_u32(e, pos + 4), flags: le_u16(e, pos + 8) }
}

/// The interrupt source overrides found by walking the MADT entries from
/// byte `pos`, while `pos` is below `end` (the entries' length as the table
/// gives it); `e` holds the bytes from the first entry on, as far as they
/// can be read. Each entry starts with its type and its length; the walk
/// moves on by the length and ends at an entry whose length is zero. An
/// override is read where its ten bytes can be read.
pub open spec fn iso_records(e: Seq<u8>, end: int, pos: int) -> Seq<IsoRecord>
    decreases end - pos,
{
    if pos < 0 || pos >= end || pos + 2 > e.len() {
        Seq::empty()
    } else {
        let len = e[pos + 1] as int;
        let here = if e[pos] == MADT_ENTRY_ISO && pos + 10 <= e.len() {
            seq![iso_at(e, pos)]
        } else {
            Seq::empty()
        };
        if len == 0 || pos + len >= end {
            here
        } else {
            here + iso_records(e, end, pos + len)
        }
    }
}

/// Walks the entries of a MADT and returns its interrupt source overrides
/// in order: `entries` are the bytes that follow the table's fixed part, as
/// far as they can be read, and `end` is how many of them the table's length
/// covers.
pub fn parse_isos(entries: &[u8], end: usize) -> (r: Vec<IsoRecord>)
    ensures
        r@ == iso_records(entries@, end as int, 0),
{
    let mut out: Vec<IsoRecord> = Vec::new();
    let mut pos: usize = 0;
    while pos < end && pos < entries.len() && entries.len() - pos >= 2
        invariant
            out@ + iso_records(entries@, end as int, pos as int) == iso_records(entries@, end as int, 0),
        decreases end - pos,
    {
        let ghost before = out@;
        let kind = entries[pos];
        let len = entries[pos + 1] as usize;
        if kind == MADT_ENTRY_ISO && entries.len() - pos >= ISO_ENTRY_LEN {
            let rec = IsoRecord {
                bus: entries[pos + 2],
                source: entries[pos + 3],
                gsi: read_u32(entries, pos + 4),
                flags: read_u16(entries, pos + 8),
            };
            out.push(rec);
        }
        let ghost here = out@.subrange(before.len() as int, out@.len() as int);
        assert(out@ =~= before + here);
        if len == 0 {
            proof {
                assert(iso_records(entries@, end as int, pos as int) =~= here);
                assert(iso_records(entries@, end as int, end as int) =~= Seq::<IsoRecord>::empty());
                assert(out@ + iso_records(entries@, end as int, end as int) =~= before + iso_records(
                    entries@,
                    end as int,
                    pos as int,
                ));
            }
            pos = end;
        } else if len >= end - pos {
            proof {
                assert(iso_records(entries@, end as int, pos as int) =~= here);
                assert(iso_records(entries@, end as int, end as int) =~= Seq::<IsoRecord>::empty());
                assert(out@ + iso_records(entries@, end as int, end as int) =~= before + iso_records(
                    entries@,
                    end as int,
                    pos as int,
                ));
            }
            pos = end;
        } else {
            proof {
                assert(iso_records(entries@, end as int, pos as int) =~= here + iso_records(
                    entries@,
                    end as int,
                    pos + len,
                ));
                assert(out@ + iso_records(entries@, end as int, pos + len) =~= before + iso_records(
                    entries@,
                    end as int,
                    pos as int,
                ));
            }
            pos = pos + len;
        }
    }
    proof {
        assert(iso_records(entries@, end as int, pos as int) =~= Seq::<IsoRecord>::empty());
    }
    assert(out@ =~= out@ + iso_records(entries@, end as int, pos as int));
    out
}

/// The GSI table after noting one override: an override of a GSI below 256
/// stores its flags and marks the GSI as overridden; one beyond is skipped.
pub open spec fn apply_iso(t: Seq<GsiInfo>, r: IsoRecord) -> Seq<GsiInfo> {
    if r.gsi < GSI_COUNT {
        let old = t[r.gsi as int];
        t.update(r.gsi as int, GsiInfo { flags: r.flags, has_iso: true, ..old })
    } else {
        t
    }
}

/// The GSI table after noting the overrides in order.
pub open spec fn apply_isos(t: Seq<GsiInfo>, rs: Seq<IsoRecord>) -> Seq<GsiInfo>
    decreases rs.len(),
{
    if rs.len() == 0 {
        t
    } else {
        apply_iso(apply_isos(t, rs.drop_last()), rs.last())
    }
}

/// Number of overrides whose GSI is below 256.
pub open spec fn isos_in_range(rs: Seq<IsoRecord>) -> nat
    decreases rs.len(),
{
    if rs.len() == 0 {
        0
    } else {
        isos_in_range(rs.drop_last()) + if rs.last().gsi < GSI_COUNT { 1nat } else { 0nat }
    }
}

proof fn lemma_isos_in_range_bound(rs: Seq<IsoRecord>)
    ensures
        isos_in_range(rs) <= rs.len(),
    decreases rs.len(),
{
    if rs.len() > 0 {
        lemma_isos_in_range_bound(rs.drop_last());
    }
}

/// Noting overrides changes nothing but the override marks and flags: a
/// GSI ends up marked as overridden exactly when it was marked before or an
/// override names it, a GSI that no override names is left as it was, and
/// the vector, handler, device and pending state of every GSI stay.
pub proof fn lemma_record_isos_marks(t: Seq<GsiInfo>, rs: Seq<IsoRecord>, g: int)
    requires
        t.len() == GSI_COUNT,
        0 <= g < GSI_COUNT,
    ensures
        apply_isos(t, rs).len() == GSI_COUNT,
        apply_isos(t, rs)[g].has_iso == (t[g].has_iso || exists|i: int|
            0 <= i < rs.len() && (#[trigger] rs[i]).gsi == g),
        (forall|i: int| 0 <= i < rs.len() ==> (#[trigger] rs[i]).gsi != g) ==> apply_isos(t, rs)[g]
            == t[g],
        apply_isos(t, rs)[g].vector == t[g].vector,
        apply_isos(t, rs)[g].handler == t[g].handler,
        apply_isos(t, rs)[g].device_ptr == t[g].device_ptr,
        apply_isos(t, rs)[g].pending == t[g].pending,
    decreases rs.len(),
{
    if rs.len() > 0 {
        let init = rs.drop_last();
        lemma_record_isos_marks(t, init, g);
        if exists|i: int| 0 <= i < init.len() && (#[trigger] init[i]).gsi == g {
            let i = choose|i: int| 0 <= i < init.len() && (#[trigger] init[i]).gsi == g;
            assert(rs[i] == init[i]);
        }
        if rs.last().gsi == g {
            assert(rs[rs.len() - 1].gsi == g);
        }
        assert forall|i: int| 0 <= i < rs.len() && (#[trigger] rs[i]).gsi == g implies
            (i < init.len() && init[i].gsi == g) || rs.last().gsi == g by {
            if i < init.len() {
                assert(init[i] == rs[i]);
            }
        }
    }
}

/// Notes interrupt source overrides in the GSI table: for each override of
/// a GSI below 256, in order, the GSI's flags become the override's and it
/// is marked as overridden. Returns the number of overrides noted.
pub fn record_isos(table: &mut Vec<GsiInfo>, records: &Vec<IsoRecord>) -> (r: usize)
    requires
        old(table)@.len() == GSI_COUNT,
    ensures
        final(table)@ == apply_isos(old(table)@, records@),
        r == isos_in_range(records@),
{
    let mut count: usize = 0;
    let mut i: usize = 0;
    while i < records.len()
        invariant
            i <= records@.len(),
            table@.len() == GSI_COUNT,
            table@ == apply_isos(old(table)@, records@.take(i as int)),
            count == isos_in_range(records@.take(i as int)),
            count <= i,
        decreases records@.len() - i,
    {
        let rec = records[i];
        proof {
            assert(records@.take(i + 1).drop_last() =~= records@.take(i as int));
            lemma_isos_in_range_bound(records@.take(i as int));
        }
        if rec.gsi < 256 {
            let g = rec.gsi as usize;
            let cur = table[g];
            table[g] = GsiInfo { flags: rec.flags, has_iso: true, ..cur };
            count = count + 1;
        }
        i = i + 1;
    }
    assert(records@.take(records@.len() as int) =~= records@);
    count
}

/// What the kernel does next for one GSI while linking overrides.
#[derive(Debug, Clone, Copy, PartialEq, Eq)]
pub enum IsoAction {
    /// Nothing to do for this GSI.
    Skip,
    /// Look for the PCI device behind the GSI and bind its driver.
    TryBind,
    /// Program the I/O APIC with this vector.
    Program(u8),
    /// Allocate a vector for the handler, then program the I/O APIC with it.
    AllocateVector,
}

/// The decision taken for one GSI while linking overrides: a GSI without
/// an override is skipped; one without a handler gets a driver binding
/// attempt, and is skipped if it still has none after it; one with a
/// handler reuses its vector, or gets one allocated.
pub fn link_iso_action(info: &GsiInfo, bind_attempted: bool) -> (r: IsoAction)
    ensures
        r == (if !info.has_iso {
            IsoAction::Skip
        } else if info.handler is None {
            if bind_attempted { IsoAction::Skip } else { IsoAction::TryBind }
        } else {
            match info.vector {
                Some(v) => IsoAction::Program(v),
                None => IsoAction::AllocateVector,
            }
        }),
{
    if !info.has_iso {
        IsoAction::Skip
    } else if info.handler.is_none() {
        if bind_attempted {
            IsoAction::Skip
        } else {
            IsoAction::TryBind
        }
    } else {
        match info.vector {
            Some(v) => IsoAction::Program(v),
            None => IsoAction::AllocateVector,
        }
    }
}

} // verus!
