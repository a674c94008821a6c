use std::ops::Range;

use fuel_vm_core::consts::{MEM_SIZE, VM_MAX_RAM};
use fuel_vm_core::error::PanicReason;
use fuel_vm_core::memory::{
    copy_from_slice_zero_fill_noownerchecks, set_index, try_mem_write, try_zeroize, Context,
    MemoryRange, OwnershipRegisters,
};

fn memory_filled(byte: u8) -> Box<[u8; MEM_SIZE]> {
    vec![byte; MEM_SIZE].try_into().unwrap()
}

fn ownership(reg: OwnershipRegisters, range: Range<u64>) -> bool {
    let range = MemoryRange::new(range.start as usize, (range.end - range.start) as usize)
        .expect("Invalid range");
    reg.verify_ownership(&range).is_ok()
}

fn mem_write(addr: usize, data: &[u8], registers: OwnershipRegisters) -> (bool, [u8; 100]) {
    let mut memory = memory_filled(0);
    let r = try_mem_write(addr, data, registers, &mut memory).is_ok();
    let memory: [u8; 100] = memory[..100].try_into().unwrap();
    (r, memory)
}

fn zeroize(addr: usize, len: usize, registers: OwnershipRegisters) -> (bool, [u8; 100]) {
    let mut memory = memory_filled(1);
    let r = try_zeroize(addr, len, registers, &mut memory).is_ok();
    let memory: [u8; 100] = memory[..100].try_into().unwrap();
    (r, memory)
}

fn zero_fill(addr: usize, len: usize, src_offset: usize, src_data: &[u8]) -> (bool, [u8; 5]) {
    let mut memory = memory_filled(0xff);
    let r = copy_from_slice_zero_fill_noownerchecks(&mut memory, src_data, addr, src_offset, len)
        .is_ok();
    let memory: [u8; 5] = memory[..5].try_into().unwrap();
    (r, memory)
}

#[test]
fn test_ownership_empty_mem_range() {
    let reg = OwnershipRegisters::test(0..0, 0..0, Context::Call { block_height: 0 });
    assert_eq!(ownership(reg, 0..0), true);
}

#[test]
fn test_ownership_empty_mem_range_external() {
    let reg = OwnershipRegisters::test(0..0, 0..0, Context::Script { block_height: 0 });
    assert_eq!(ownership(reg, 0..0), true);
}

#[test]
fn test_ownership_empty_stack_and_heap() {
    let reg = OwnershipRegisters::test(0..0, 0..0, Context::Call { block_height: 0 });
    assert_eq!(ownership(reg, 0..1), false);
}

#[test]
fn test_ownership_empty_stack_and_heap_external() {
    let reg = OwnershipRegisters::test(0..0, VM_MAX_RAM..VM_MAX_RAM, Context::Script { block_height: 0 });
    assert_eq!(ownership(reg, 0..1), false);
}

#[test]
fn test_ownership_in_range_for_stack() {
    let reg = OwnershipRegisters::test(0..1, 0..0, Context::Call { block_height: 0 });
    assert_eq!(ownership(reg, 0..1), true);
}

#[test]
fn test_ownership_above_stack_range() {
    let reg = OwnershipRegisters::test(0..1, 0..0, Context::Call { block_height: 0 });
    assert_eq!(ownership(reg, 0..2), false);
}

#[test]
fn test_ownership_in_range_for_heap() {
    let reg = OwnershipRegisters::test(0..0, 0..2, Context::Call { block_height: 0 });
    assert_eq!(ownership(reg, 1..2), true);
}

#[test]
fn test_ownership_crosses_stack_and_heap() {
    let reg = OwnershipRegisters::test(0..2, 1..2, Context::Call { block_height: 0 });
    assert_eq!(ownership(reg, 0..2), true);
}

#[test]
fn test_ownership_in_heap_range_external() {
    let reg = OwnershipRegisters::test(0..0, 0..0, Context::Script { block_height: 0 });
    assert_eq!(ownership(reg, 1..2), true);
}

#[test]
fn test_ownership_between_ranges_external() {
    let reg = OwnershipRegisters::test(0..19, 31..100, Context::Script { block_height: 0 });
    assert_eq!(ownership(reg, 20..30), false);
}

#[test]
fn test_ownership_in_stack_range_external() {
    let reg = OwnershipRegisters::test(0..19, 31..100, Context::Script { block_height: 0 });
    assert_eq!(ownership(reg, 0..1), true);
}

#[test]
fn test_ownership_not_owned_in_script_context() {
    let reg = OwnershipRegisters::test(0..0, 9..10, Context::Script { block_height: 10 });
    assert_eq!(ownership(reg, 1..9), false);
}

#[test]
fn test_ownership_not_owned_in_call_context() {
    let reg = OwnershipRegisters::test(0..0, 9..10, Context::Call { block_height: 15 });
    assert_eq!(ownership(reg, 1..9), false);
}

#[test]
fn test_ownership_crosses_heap_and_stack_range() {
    let reg = OwnershipRegisters::test(1_000_000..1_100_000, 5_900_000..6_300_000, Context::Script { block_height: 0 });
    assert_eq!(ownership(reg, 999_000..7_100_200), false);
}

#[test]
fn test_ownership_start_inclusive_and_end_exclusive() {
    let reg = OwnershipRegisters::test(0..20, 40..50, Context::Script { block_height: 0 });
    assert_eq!(ownership(reg, 0..20), true);
}

#[test]
fn test_ownership_start_exclusive_and_end_inclusive() {
    let reg = OwnershipRegisters::test(0..20, 40..50, Context::Script { block_height: 0 });
    assert_eq!(ownership(reg, 20..41), false);
}

#[test]
fn test_mem_write_external_errors_when_write_is_empty() {
    let registers = OwnershipRegisters::test(0..1, 100..100, Context::Script { block_height: 0 });
    assert_eq!(mem_write(1, &[], registers), (false, [0u8; 100]));
}

#[test]
fn test_mem_write_internal_errors_when_write_is_empty() {
    let registers = OwnershipRegisters::test(0..1, 100..100, Context::Call { block_height: 0 });
    assert_eq!(mem_write(1, &[], registers), (false, [0u8; 100]));
}

#[test]
fn test_mem_write_external_writes_to_stack() {
    let registers = OwnershipRegisters::test(0..2, 100..100, Context::Script { block_height: 0 });
    assert_eq!(mem_write(1, &[2], registers), (true, set_index(1, 2, [0u8; 100])));
}

#[test]
fn test_mem_write_external_writes_to_heap() {
    let registers = OwnershipRegisters::test(0..2, 97..100, Context::Script { block_height: 0 });
    assert_eq!(mem_write(98, &[2], registers), (true, set_index(98, 2, [0u8; 100])));
}

#[test]
fn test_mem_write_internal_writes_to_stack() {
    let registers = OwnershipRegisters::test(0..2, 100..100, Context::Call { block_height: 0 });
    assert_eq!(mem_write(1, &[2], registers), (true, set_index(1, 2, [0u8; 100])));
}

#[test]
fn test_mem_write_internal_writes_to_heap() {
    let registers = OwnershipRegisters::test(0..2, 97..100, Context::Call { block_height: 0 });
    assert_eq!(mem_write(98, &[2], registers), (true, set_index(98, 2, [0u8; 100])));
}

#[test]
fn test_mem_write_external_too_large_for_stack() {
    let registers = OwnershipRegisters::test(0..40, 100..100, Context::Script { block_height: 0 });
    assert_eq!(mem_write(1, &[2; 50], registers), (false, [0u8; 100]));
}

#[test]
fn test_mem_write_internal_too_large_for_stack() {
    let registers = OwnershipRegisters::test(0..40, 100..100, Context::Call { block_height: 0 });
    assert_eq!(mem_write(1, &[2; 50], registers), (false, [0u8; 100]));
}

#[test]
fn test_mem_write_internal_too_large_for_heap() {
    let registers = OwnershipRegisters::test(0..0, 60..100, Context::Call { block_height: 0 });
    assert_eq!(mem_write(61, &[2; 50], registers), (false, [0u8; 100]));
}

#[test]
fn test_try_zeroize_external_errors_when_write_is_empty() {
    let registers = OwnershipRegisters::test(0..1, 100..100, Context::Script { block_height: 0 });
    assert_eq!(zeroize(1, 0, registers), (false, [1u8; 100]));
}

#[test]
fn test_try_zeroize_internal_errors_when_write_is_empty() {
    let registers = OwnershipRegisters::test(0..1, 100..100, Context::Call { block_height: 0 });
    assert_eq!(zeroize(1, 0, registers), (false, [1u8; 100]));
}

#[test]
fn test_try_zeroize_external_writes_to_stack() {
    let registers = OwnershipRegisters::test(0..2, 100..100, Context::Script { block_height: 0 });
    assert_eq!(zeroize(1, 1, registers), (true, set_index(1, 0, [1u8; 100])));
}

#[test]
fn test_try_zeroize_external_writes_to_heap() {
    let registers = OwnershipRegisters::test(0..2, 97..100, Context::Script { block_height: 0 });
    assert_eq!(zeroize(98, 1, registers), (true, set_index(98, 0, [1u8; 100])));
}

#[test]
fn test_try_zeroize_internal_writes_to_stack() {
    let registers = OwnershipRegisters::test(0..2, 100..100, Context::Call { block_height: 0 });
    assert_eq!(zeroize(1, 1, registers), (true, set_index(1, 0, [1u8; 100])));
}

#[test]
fn test_try_zeroize_internal_writes_to_heap() {
    let registers = OwnershipRegisters::test(0..2, 97..100, Context::Call { block_height: 0 });
    assert_eq!(zeroize(98, 1, registers), (true, set_index(98, 0, [1u8; 100])));
}

#[test]
fn test_try_zeroize_external_too_large_for_stack() {
    let registers = OwnershipRegisters::test(0..40, 100..100, Context::Script { block_height: 0 });
    assert_eq!(zeroize(1, 50, registers), (false, [1u8; 100]));
}

#[test]
fn test_try_zeroize_internal_too_large_for_stack() {
    let registers = OwnershipRegisters::test(0..40, 100..100, Context::Call { block_height: 0 });
    assert_eq!(zeroize(1, 50, registers), (false, [1u8; 100]));
}

#[test]
fn test_try_zeroize_internal_too_large_for_heap() {
    let registers = OwnershipRegisters::test(0..0, 60..100, Context::Call { block_height: 0 });
    assert_eq!(zeroize(61, 50, registers), (false, [1u8; 100]));
}

#[test]
fn test_copy_from_slice_zero_fill_noownerchecks_full_0_0_0() {
    assert_eq!(zero_fill(0, 0, 0, &[1, 2, 3, 4]), (true, [0xff, 0xff, 0xff, 0xff, 0xff]));
}

#[test]
fn test_copy_from_slice_zero_fill_noownerchecks_full_1_0_0() {
    assert_eq!(zero_fill(1, 0, 0, &[1, 2, 3, 4]), (true, [0xff, 0xff, 0xff, 0xff, 0xff]));
}

#[test]
fn test_copy_from_slice_zero_fill_noownerchecks_full_0_0_1() {
    assert_eq!(zero_fill(0, 0, 1, &[1, 2, 3, 4]), (true, [0xff, 0xff, 0xff, 0xff, 0xff]));
}

#[test]
fn test_copy_from_slice_zero_fill_noownerchecks_full_0_4_0() {
    assert_eq!(zero_fill(0, 4, 0, &[1, 2, 3, 4]), (true, [1, 2, 3, 4, 0xff]));
}

#[test]
fn test_copy_from_slice_zero_fill_noownerchecks_full_1_4_0() {
    assert_eq!(zero_fill(1, 4, 0, &[1, 2, 3, 4]), (true, [0xff, 1, 2, 3, 4]));
}

#[test]
fn test_copy_from_slice_zero_fill_noownerchecks_full_2_4_0() {
    assert_eq!(zero_fill(2, 4, 0, &[1, 2, 3, 4]), (true, [0xff, 0xff, 1, 2, 3]));
}

#[test]
fn test_copy_from_slice_zero_fill_noownerchecks_full_2_2_0() {
    assert_eq!(zero_fill(2, 2, 0, &[1, 2, 3, 4]), (true, [0xff, 0xff, 1, 2, 0xff]));
}

#[test]
fn test_copy_from_slice_zero_fill_noownerchecks_full_0_2_2() {
    assert_eq!(zero_fill(0, 2, 2, &[1, 2, 3, 4]), (true, [3, 4, 0xff, 0xff, 0xff]));
}

#[test]
fn test_copy_from_slice_zero_fill_noownerchecks_full_0_2_3() {
    assert_eq!(zero_fill(0, 2, 3, &[1, 2, 3, 4]), (true, [4, 0, 0xff, 0xff, 0xff]));
}

#[test]
fn test_copy_from_slice_zero_fill_noownerchecks_full_0_2_4() {
    assert_eq!(zero_fill(0, 2, 4, &[1, 2, 3, 4]), (true, [0, 0, 0xff, 0xff, 0xff]));
}

#[test]
fn test_copy_from_slice_zero_fill_noownerchecks_full_0_2_5() {
    assert_eq!(zero_fill(0, 2, 5, &[1, 2, 3, 4]), (true, [0, 0, 0xff, 0xff, 0xff]));
}

#[test]
fn test_copy_from_slice_zero_fill_noownerchecks_full_1_2_2() {
    assert_eq!(zero_fill(1, 2, 2, &[1, 2, 3, 4]), (true, [0xff, 3, 4, 0xff, 0xff]));
}

#[test]
fn test_copy_from_slice_zero_fill_noownerchecks_full_1_2_3() {
    assert_eq!(zero_fill(1, 2, 3, &[1, 2, 3, 4]), (true, [0xff, 4, 0, 0xff, 0xff]));
}

#[test]
fn test_copy_from_slice_zero_fill_noownerchecks_full_1_2_4() {
    assert_eq!(zero_fill(1, 2, 4, &[1, 2, 3, 4]), (true, [0xff, 0, 0, 0xff, 0xff]));
}

#[test]
fn test_copy_from_slice_zero_fill_noownerchecks_full_1_2_5() {
    assert_eq!(zero_fill(1, 2, 5, &[1, 2, 3, 4]), (true, [0xff, 0, 0, 0xff, 0xff]));
}

#[test]
fn test_copy_from_slice_zero_fill_noownerchecks_empty_source_1_0_0() {
    assert_eq!(zero_fill(1, 0, 0, &[]), (true, [0xff, 0xff, 0xff, 0xff, 0xff]));
}

#[test]
fn test_copy_from_slice_zero_fill_noownerchecks_empty_source_1_2_0() {
    assert_eq!(zero_fill(1, 2, 0, &[]), (true, [0xff, 0, 0, 0xff, 0xff]));
}

#[test]
fn test_copy_from_slice_zero_fill_noownerchecks_empty_source_1_2_1() {
    assert_eq!(zero_fill(1, 2, 1, &[]), (true, [0xff, 0, 0, 0xff, 0xff]));
}

#[test]
fn test_copy_from_slice_zero_fill_noownerchecks_empty_source_1_2_2() {
    assert_eq!(zero_fill(1, 2, 2, &[]), (true, [0xff, 0, 0, 0xff, 0xff]));
}

#[test]
fn test_copy_from_slice_zero_fill_noownerchecks_empty_source_1_2_3() {
    assert_eq!(zero_fill(1, 2, 3, &[]), (true, [0xff, 0, 0, 0xff, 0xff]));
}

#[test]
fn memrange() {
    // The registers of a script that allocated 1024 bytes on the heap.
    let bytes: usize = 1024;
    let hp = VM_MAX_RAM - bytes as u64;
    let registers = OwnershipRegisters {
        sp: 10_696,
        ssp: 10_696,
        hp,
        prev_hp: VM_MAX_RAM,
        context: Context::Script { block_height: 0 },
    };

    let m = MemoryRange::new(hp as usize - 1, bytes).unwrap();
    assert!(!registers.has_ownership_range(&m));

    let m = MemoryRange::new(hp as usize, bytes).unwrap();
    assert!(registers.has_ownership_range(&m));

    MemoryRange::new(hp as usize, bytes + 1).expect_err("Overflows");

    let m = MemoryRange::new(hp as usize + 0, bytes).unwrap();
    assert!(registers.has_ownership_range(&m));
}

#[test]
fn stack_alloc_ownership() {
    // The registers of a script that extended its stack by two bytes.
    let old_sp: u64 = 10_696;
    let registers = OwnershipRegisters {
        sp: old_sp + 2,
        ssp: old_sp,
        hp: VM_MAX_RAM,
        prev_hp: VM_MAX_RAM,
        context: Context::Script { block_height: 0 },
    };
    let mut memory = memory_filled(1);

    // Assert allocated stack is writable
    try_zeroize(old_sp as usize, 2, registers, &mut memory).unwrap();
    assert_eq!(memory[old_sp as usize..old_sp as usize + 3], [0, 0, 1]);
}

#[test]
fn memory_range_at_the_end_of_memory() {
    let range = MemoryRange::new(MEM_SIZE, 0).unwrap();
    assert_eq!(range.start(), MEM_SIZE);
    assert_eq!(range.end(), MEM_SIZE);
    assert!(range.is_empty());
    assert_eq!(range.len(), 0);
    assert_eq!(MemoryRange::new(MEM_SIZE - 1, 2), Err(PanicReason::MemoryOverflow));
    assert_eq!(MemoryRange::new(usize::MAX, 2), Err(PanicReason::MemoryOverflow));
    assert_eq!(MemoryRange::new(2, usize::MAX), Err(PanicReason::MemoryOverflow));
}

#[test]
fn ownership_of_stack_and_heap_ranges() {
    let regs = OwnershipRegisters {
        ssp: 0,
        sp: 20,
        hp: 40,
        prev_hp: 50,
        context: Context::Script { block_height: 0 },
    };
    assert_eq!(regs.verify_ownership(&MemoryRange::new(0, 20).unwrap()), Ok(()));
    assert_eq!(
        regs.verify_ownership(&MemoryRange::new(20, 21).unwrap()),
        Err(PanicReason::MemoryOwnership)
    );
}

#[test]
fn ownership_passes_to_ranges_inside() {
    let regs = OwnershipRegisters::test(10..30, 40..50, Context::Call { block_height: 0 });
    let outer = MemoryRange::new(10, 20).unwrap();
    assert!(regs.has_ownership_range(&outer));
    for start in 10..30 {
        for end in start + 1..=30 {
            let inner = MemoryRange::new(start, end - start).unwrap();
            assert!(regs.has_ownership_range(&inner));
        }
    }
    // The empty range at the very end of the stack is the one exception.
    assert!(!regs.has_ownership_range(&MemoryRange::new(30, 0).unwrap()));
    assert!(regs.has_ownership_range(&MemoryRange::new(29, 0).unwrap()));
}

#[test]
fn empty_write_is_refused_for_its_size() {
    let registers = OwnershipRegisters::test(0..10, 100..100, Context::Script { block_height: 0 });
    let mut memory = memory_filled(7);
    assert_eq!(try_mem_write(1, &[], registers, &mut memory), Err(PanicReason::MemoryWriteSize));
    assert_eq!(try_zeroize(1, 0, registers, &mut memory), Err(PanicReason::MemoryWriteSize));
    // The empty range itself is owned.
    assert!(registers.has_ownership_range(&MemoryRange::new(1, 0).unwrap()));
    assert_eq!(memory[..3], [7, 7, 7]);
}

#[test]
fn write_past_heap_leaves_memory_unchanged() {
    let registers = OwnershipRegisters {
        ssp: 0,
        sp: 0,
        hp: 60,
        prev_hp: 100,
        context: Context::Call { block_height: 0 },
    };
    let mut memory = memory_filled(0);
    assert_eq!(
        try_mem_write(61, &[2; 50], registers, &mut memory),
        Err(PanicReason::MemoryOwnership)
    );
    assert!(memory[..200].iter().all(|b| *b == 0));
}

#[test]
fn write_beyond_memory_overflows() {
    let registers = OwnershipRegisters::test(0..0, 0..0, Context::Script { block_height: 0 });
    let mut memory = memory_filled(0);
    assert_eq!(
        try_mem_write(MEM_SIZE - 1, &[1, 2], registers, &mut memory),
        Err(PanicReason::MemoryOverflow)
    );
    assert_eq!(
        try_zeroize(MEM_SIZE, 1, registers, &mut memory),
        Err(PanicReason::MemoryOverflow)
    );
    assert_eq!(try_mem_write(MEM_SIZE - 2, &[1, 2], registers, &mut memory), Ok(()));
    assert_eq!(memory[MEM_SIZE - 2..], [1, 2]);
}

#[test]
fn zero_fill_copy_past_the_end_of_the_source() {
    assert_eq!(zero_fill(0, 2, 3, &[1, 2, 3, 4]), (true, [4, 0, 0xff, 0xff, 0xff]));
}

#[test]
fn zero_fill_copy_from_beyond_the_source() {
    let mut memory = memory_filled(0xff);
    assert_eq!(
        copy_from_slice_zero_fill_noownerchecks(&mut memory, &[1, 2, 3], 4, 100, 3),
        Ok(())
    );
    assert_eq!(memory[3..8], [0xff, 0, 0, 0, 0xff]);
}

#[test]
fn zero_fill_copy_beyond_memory_is_refused() {
    let mut memory = memory_filled(0xff);
    assert_eq!(
        copy_from_slice_zero_fill_noownerchecks(&mut memory, &[1, 2, 3], MEM_SIZE - 1, 0, 2),
        Err(PanicReason::MemoryOverflow)
    );
    assert_eq!(memory[MEM_SIZE - 1], 0xff);
}

#[test]
fn set_index_changes_one_byte() {
    let array = set_index(3, 9, [0u8; 100]);
    assert_eq!(array[3], 9);
    assert_eq!(array.iter().filter(|b| **b != 0).count(), 1);
}

#[test]
fn context_kinds() {
    assert!(Context::Script { block_height: 1 }.is_external());
    assert!(!Context::Call { block_height: 1 }.is_external());
}
