//! Diagnostic trouble codes: the read functions of service `0x19`, status mask bits, and the
//! records that fault reads produce.
use vstd::prelude::*;
use crate::error::text;
use crate::interfaces::DiagComm;

verus! {

/// A diagnostic trouble code.
pub type DtcCode = u32;

/// Bit length of a diagnostic trouble code.
pub const DTC_CODE_BIT_LEN: u32 = 24;

/// Positive response id of a fault memory clear (ISO 14229-1 table 298).
pub const CLEAR_FAULT_MEM_POS_RESPONSE_SID: u8 = 0x54;

/// The read functions of service `0x19` (read DTC information) that are supported.
#[derive(Clone, Copy, Debug, PartialEq, Eq, Hash, Structural)]
pub enum DtcReadInformationFunction {
    FaultMemoryByStatusMask,
    FaultMemorySnapshotRecordByDtcNumber,
    FaultMemoryExtDataRecordByDtcNumber,
    UserMemoryDtcByStatusMask,
    UserMemoryDtcSnapshotRecordByDtcNumber,
    UserMemoryDtcExtDataRecordByDtcNumber,
}

/// Whether a read function reads the user memory.
pub open spec fn reads_user_memory(f: DtcReadInformationFunction) -> bool {
    match f {
        DtcReadInformationFunction::UserMemoryDtcByStatusMask
        | DtcReadInformationFunction::UserMemoryDtcSnapshotRecordByDtcNumber
        | DtcReadInformationFunction::UserMemoryDtcExtDataRecordByDtcNumber => true,
        _ => false,
    }
}

/// The sub-function byte of a read function.
pub open spec fn sub_function_of(f: DtcReadInformationFunction) -> u8 {
    match f {
        DtcReadInformationFunction::FaultMemoryByStatusMask => 0x02,
        DtcReadInformationFunction::FaultMemorySnapshotRecordByDtcNumber => 0x04,
        DtcReadInformationFunction::FaultMemoryExtDataRecordByDtcNumber => 0x06,
        DtcReadInformationFunction::UserMemoryDtcByStatusMask => 0x17,
        DtcReadInformationFunction::UserMemoryDtcSnapshotRecordByDtcNumber => 0x18,
        DtcReadInformationFunction::UserMemoryDtcExtDataRecordByDtcNumber => 0x19,
    }
}

impl DtcReadInformationFunction {
    /// The sub-function byte of service `0x19` for this function.
    pub fn value(&self) -> (r: u8)
        ensures
            r == sub_function_of(*self),
    {
        match self {
            DtcReadInformationFunction::FaultMemoryByStatusMask => 0x02,
            DtcReadInformationFunction::FaultMemorySnapshotRecordByDtcNumber => 0x04,
            DtcReadInformationFunction::FaultMemoryExtDataRecordByDtcNumber => 0x06,
            DtcReadInformationFunction::UserMemoryDtcByStatusMask => 0x17,
            DtcReadInformationFunction::UserMemoryDtcSnapshotRecordByDtcNumber => 0x18,
            DtcReadInformationFunction::UserMemoryDtcExtDataRecordByDtcNumber => 0x19,
        }
    }

    /// The scope used for the function when the service names no functional class: the
    /// user memory functions read `UserMem`, the others `FaultMem`.
    pub fn default_scope(&self) -> (r: &'static str)
        ensures
            r@ == (if reads_user_memory(*self) {
                "UserMem"@
            } else {
                "FaultMem"@
            }),
    {
        match self {
            DtcReadInformationFunction::FaultMemoryByStatusMask
            | DtcReadInformationFunction::FaultMemoryExtDataRecordByDtcNumber
            | DtcReadInformationFunction::FaultMemorySnapshotRecordByDtcNumber => "FaultMem",
            DtcReadInformationFunction::UserMemoryDtcByStatusMask
            | DtcReadInformationFunction::UserMemoryDtcExtDataRecordByDtcNumber
            | DtcReadInformationFunction::UserMemoryDtcSnapshotRecordByDtcNumber => "UserMem",
        }
    }

    /// All functions, in declaration order.
    pub fn all() -> (r: Vec<DtcReadInformationFunction>)
        ensures
            r@ == seq![
                DtcReadInformationFunction::FaultMemoryByStatusMask,
                DtcReadInformationFunction::FaultMemorySnapshotRecordByDtcNumber,
                DtcReadInformationFunction::FaultMemoryExtDataRecordByDtcNumber,
                DtcReadInformationFunction::UserMemoryDtcByStatusMask,
                DtcReadInformationFunction::UserMemoryDtcSnapshotRecordByDtcNumber,
                DtcReadInformationFunction::UserMemoryDtcExtDataRecordByDtcNumber,
            ],
    {
        let r = vec![
            DtcReadInformationFunction::FaultMemoryByStatusMask,
            DtcReadInformationFunction::FaultMemorySnapshotRecordByDtcNumber,
            DtcReadInformationFunction::FaultMemoryExtDataRecordByDtcNumber,
            DtcReadInformationFunction::UserMemoryDtcByStatusMask,
            DtcReadInformationFunction::UserMemoryDtcSnapshotRecordByDtcNumber,
            DtcReadInformationFunction::UserMemoryDtcExtDataRecordByDtcNumber,
        ];
        assert(r@ =~= seq![
            DtcReadInformationFunction::FaultMemoryByStatusMask,
            DtcReadInformationFunction::FaultMemorySnapshotRecordByDtcNumber,
            DtcReadInformationFunction::FaultMemoryExtDataRecordByDtcNumber,
            DtcReadInformationFunction::UserMemoryDtcByStatusMask,
            DtcReadInformationFunction::UserMemoryDtcSnapshotRecordByDtcNumber,
            DtcReadInformationFunction::UserMemoryDtcExtDataRecordByDtcNumber,
        ]);
        r
    }

    /// Whether the function reads the user memory.
    pub fn is_user_scope(&self) -> (r: bool)
        ensures
            r == reads_user_memory(*self),
    {
        match self {
            DtcReadInformationFunction::UserMemoryDtcByStatusMask
            | DtcReadInformationFunction::UserMemoryDtcSnapshotRecordByDtcNumber
            | DtcReadInformationFunction::UserMemoryDtcExtDataRecordByDtcNumber => true,
            _ => false,
        }
    }
}

/// The status bits of a diagnostic trouble code.
#[derive(Clone, Copy, Debug, PartialEq, Eq, Structural)]
pub enum DtcMask {
    TestFailed,
    TestFailedThisOperationCycle,
    PendingDtc,
    ConfirmedDtc,
    TestNotCompletedSinceLastClear,
    TestFailedSinceLastClear,
    TestNotCompletedThisOperationCycle,
    WarningIndicatorRequested,
}

/// The bit of a status mask.
pub open spec fn mask_bit(m: DtcMask) -> u8 {
    match m {
        DtcMask::TestFailed => 0x01,
        DtcMask::TestFailedThisOperationCycle => 0x02,
        DtcMask::PendingDtc => 0x04,
        DtcMask::ConfirmedDtc => 0x08,
        DtcMask::TestNotCompletedSinceLastClear => 0x10,
        DtcMask::TestFailedSinceLastClear => 0x20,
        DtcMask::TestNotCompletedThisOperationCycle => 0x40,
        DtcMask::WarningIndicatorRequested => 0x80,
    }
}

/// The bitwise or of the bits of `ms`.
pub open spec fn mask_union(ms: Seq<DtcMask>) -> u8
    decreases ms.len(),
{
    if ms.len() == 0 {
        0
    } else {
        mask_union(ms.drop_last()) | mask_bit(ms.last())
    }
}

/// All status bits, lowest first.
pub open spec fn all_masks() -> Seq<DtcMask> {
    seq![
        DtcMask::TestFailed,
        DtcMask::TestFailedThisOperationCycle,
        DtcMask::PendingDtc,
        DtcMask::ConfirmedDtc,
        DtcMask::TestNotCompletedSinceLastClear,
        DtcMask::TestFailedSinceLastClear,
        DtcMask::TestNotCompletedThisOperationCycle,
        DtcMask::WarningIndicatorRequested,
    ]
}

/// Each status flag has its ISO 14229-1 bit: the flag at position `k` of the declared order
/// (test failed, test failed this operation cycle, pending, confirmed, test not completed
/// since last clear, test failed since last clear, test not completed this operation cycle,
/// warning indicator requested) is bit `k`, `1 << k`.
pub proof fn law_status_bits_follow_declared_order(k: u8)
    requires
        k < 8,
    ensures
        mask_bit(all_masks()[k as int]) == (1u8 << k),
{
    assert({
        &&& (k == 0 ==> (1u8 << k) == 0x01u8)
        &&& (k == 1 ==> (1u8 << k) == 0x02u8)
        &&& (k == 2 ==> (1u8 << k) == 0x04u8)
        &&& (k == 3 ==> (1u8 << k) == 0x08u8)
        &&& (k == 4 ==> (1u8 << k) == 0x10u8)
        &&& (k == 5 ==> (1u8 << k) == 0x20u8)
        &&& (k == 6 ==> (1u8 << k) == 0x40u8)
        &&& (k == 7 ==> (1u8 << k) == 0x80u8)
    }) by (bit_vector);
    let a = all_masks();
    if k == 0 {
        assert(a[0] == DtcMask::TestFailed);
    } else if k == 1 {
        assert(a[1] == DtcMask::TestFailedThisOperationCycle);
    } else if k == 2 {
        assert(a[2] == DtcMask::PendingDtc);
    } else if k == 3 {
        assert(a[3] == DtcMask::ConfirmedDtc);
    } else if k == 4 {
        assert(a[4] == DtcMask::TestNotCompletedSinceLastClear);
    } else if k == 5 {
        assert(a[5] == DtcMask::TestFailedSinceLastClear);
    } else if k == 6 {
        assert(a[6] == DtcMask::TestNotCompletedThisOperationCycle);
    } else {
        assert(a[7] == DtcMask::WarningIndicatorRequested);
    }
}

/// Distinct status flags have distinct bits that do not overlap.
pub proof fn law_status_bits_disjoint(a: DtcMask, b: DtcMask)
    requires
        a != b,
    ensures
        mask_bit(a) & mask_bit(b) == 0,
{
    let x = mask_bit(a);
    let y = mask_bit(b);
    assert(x == 1 || x == 2 || x == 4 || x == 8 || x == 16 || x == 32 || x == 64 || x == 128);
    assert(y == 1 || y == 2 || y == 4 || y == 8 || y == 16 || y == 32 || y == 64 || y == 128);
    assert(x != y);
    assert((x == 1 || x == 2 || x == 4 || x == 8 || x == 16 || x == 32 || x == 64 || x == 128) && (
    y == 1 || y == 2 || y == 4 || y == 8 || y == 16 || y == 32 || y == 64 || y == 128) && x != y
        ==> x & y == 0) by (bit_vector);
}

impl DtcMask {
    /// The bit of this status flag.
    pub fn bit(&self) -> (r: u8)
        ensures
            r == mask_bit(*self),
    {
        match self {
            DtcMask::TestFailed => 0x01,
            DtcMask::TestFailedThisOperationCycle => 0x02,
            DtcMask::PendingDtc => 0x04,
            DtcMask::ConfirmedDtc => 0x08,
            DtcMask::TestNotCompletedSinceLastClear => 0x10,
            DtcMask::TestFailedSinceLastClear => 0x20,
            DtcMask::TestNotCompletedThisOperationCycle => 0x40,
            DtcMask::WarningIndicatorRequested => 0x80,
        }
    }

    /// All status flags, lowest bit first.
    pub fn all() -> (r: Vec<DtcMask>)
        ensures
            r@ == all_masks(),
    {
        let r = vec![
            DtcMask::TestFailed,
            DtcMask::TestFailedThisOperationCycle,
            DtcMask::PendingDtc,
            DtcMask::ConfirmedDtc,
            DtcMask::TestNotCompletedSinceLastClear,
            DtcMask::TestFailedSinceLastClear,
            DtcMask::TestNotCompletedThisOperationCycle,
            DtcMask::WarningIndicatorRequested,
        ];
        assert(r@ =~= all_masks());
        r
    }

    /// The mask with every status bit set: the or of the bits of all flags, `0xFF`.
    pub fn all_bits() -> (r: u8)
        ensures
            r == mask_union(all_masks()),
            r == 0xFF,
    {
        let masks = DtcMask::all();
        let mut mask: u8 = 0;
        let mut i: usize = 0;
        while i < masks.len()
            invariant
                masks@ == all_masks(),
                i <= masks@.len(),
                mask == mask_union(masks@.subrange(0, i as int)),
            decreases masks@.len() - i,
        {
            proof {
                let t = masks@.subrange(0, i + 1);
                assert(t.drop_last() =~= masks@.subrange(0, i as int));
            }
            mask = mask | masks[i].bit();
            i = i + 1;
        }
        assert(masks@.subrange(0, masks@.len() as int) =~= masks@);
        proof {
            let a = all_masks();
            reveal_with_fuel(mask_union, 9);
            assert(mask_union(a) == (((((((0u8 | 0x01u8) | 0x02u8) | 0x04u8) | 0x08u8) | 0x10u8)
                | 0x20u8) | 0x40u8) | 0x80u8);
            assert((((((((0u8 | 0x01u8) | 0x02u8) | 0x04u8) | 0x08u8) | 0x10u8) | 0x20u8) | 0x40u8)
                | 0x80u8 == 0xFFu8) by (bit_vector);
        }
        mask
    }
}

/// The trouble codes a fault read finds in one scope, with the service that read them.
pub struct DtcLookup {
    pub scope: String,
    pub service: DiagComm,
    pub dtcs: Vec<DtcRecord>,
}

/// A trouble code with its display code, name and severity.
#[derive(Debug, Clone)]
pub struct DtcRecord {
    pub code: DtcCode,
    pub display_code: Option<String>,
    pub fault_name: String,
    pub severity: u32,
}

/// Position of a trouble code field in a UDS payload.
#[derive(Debug, Clone, Copy)]
pub struct DtcField {
    pub bit_pos: u32,
    pub bit_len: u32,
    pub byte_pos: u32,
}

/// The status bits of a trouble code, each flag and the raw mask.
#[derive(Debug, Clone, Copy, PartialEq, Eq, Structural)]
pub struct DtcStatus {
    pub test_failed: bool,
    pub test_failed_this_operation_cycle: bool,
    pub pending_dtc: bool,
    pub confirmed_dtc: bool,
    pub test_not_completed_since_last_clear: bool,
    pub test_failed_since_last_clear: bool,
    pub test_not_completed_this_operation_cycle: bool,
    pub warning_indicator_requested: bool,
    pub mask: u8,
}

impl Default for DtcStatus {
    /// No flag set and a zero mask.
    fn default() -> (r: DtcStatus)
        ensures
            r == (DtcStatus {
                test_failed: false,
                test_failed_this_operation_cycle: false,
                pending_dtc: false,
                confirmed_dtc: false,
                test_not_completed_since_last_clear: false,
                test_failed_since_last_clear: false,
                test_not_completed_this_operation_cycle: false,
                warning_indicator_requested: false,
                mask: 0,
            }),
    {
        DtcStatus {
            test_failed: false,
            test_failed_this_operation_cycle: false,
            pending_dtc: false,
            confirmed_dtc: false,
            test_not_completed_since_last_clear: false,
            test_failed_since_last_clear: false,
            test_not_completed_this_operation_cycle: false,
            warning_indicator_requested: false,
            mask: 0,
        }
    }
}

/// A trouble code with its scope and status.
#[derive(Debug, Clone)]
pub struct DtcRecordAndStatus {
    pub record: DtcRecord,
    pub scope: String,
    pub status: DtcStatus,
}

/// Configuration of fault handling.
#[derive(Clone, Debug)]
pub struct FaultConfig {
    /// The full UDS service id bytes of the service that clears all user defined trouble
    /// codes (service id, then its coded constants in request order); `None` when clearing
    /// them is not supported.
    pub user_defined_dtc_clear_service: Option<Vec<u8>>,
    /// Scope that reads the user defined trouble code memory, matched ignoring case.
    pub user_memory_scope: String,
    pub default_scope: String,
}

/// Whether `r` is the default fault configuration: no clear service, user memory scope
/// `DevelopmentFaultMemory`, default scope `FaultMem`.
pub open spec fn fault_defaults(r: FaultConfig) -> bool {
    &&& r.user_defined_dtc_clear_service is None
    &&& r.user_memory_scope@ == "DevelopmentFaultMemory"@
    &&& r.default_scope@ == "FaultMem"@
}

impl Default for FaultConfig {
    /// No clear service, user memory scope `DevelopmentFaultMemory`, default scope `FaultMem`.
    fn default() -> (r: FaultConfig)
        ensures
            fault_defaults(r),
    {
        FaultConfig {
            user_defined_dtc_clear_service: None,
            user_memory_scope: text("DevelopmentFaultMemory"),
            default_scope: text("FaultMem"),
        }
    }
}

} // verus!
