use manualmap::inject::{loader_plan, Event, Injection, LoaderStep, Stage, Step};
use manualmap::names::{sz_exe_to_string, SectionName};
use manualmap::pe::{DataDirectory, PeInfo};

const IMAGE_BASE: u64 = 0x1_8000_0000;
const IMAGE_SIZE: u64 = 0x3000;

fn test_pe(reloc_size: u32, import_size: u32, tls_size: u32) -> PeInfo {
    let mut directories = Vec::new();
    for _ in 0..16 {
        directories.push(DataDirectory { virtual_address: 0, size: 0 });
    }
    directories[5] = DataDirectory { virtual_address: 0x1100, size: reloc_size };
    directories[1] = DataDirectory { virtual_address: 0x1200, size: import_size };
    directories[9] = DataDirectory { virtual_address: 0x1400, size: tls_size };
    PeInfo {
        e_lfanew: 0x80,
        number_of_sections: 1,
        size_of_optional_header: 240,
        address_of_entry_point: 0x1500,
        image_base: IMAGE_BASE,
        size_of_image: IMAGE_SIZE as u32,
        directories,
        sections: Vec::new(),
    }
}

#[test]
fn preferred_base_free_run_succeeds() {
    let pe = test_pe(0, 0, 0);
    let (mut m, step) = Injection::begin(&pe, 1234);
    assert_eq!(step, Step::OpenProcess { pid: 1234 });
    assert_eq!(
        m.on_event(Event::Opened),
        Step::AllocImageAt { addr: IMAGE_BASE, size: IMAGE_SIZE }
    );
    // the preferred base was free: the image lands exactly there
    assert_eq!(
        m.on_event(Event::Allocated { base: IMAGE_BASE }),
        Step::WriteImage { base: IMAGE_BASE }
    );
    assert_eq!(m.on_event(Event::Wrote), Step::ResolveLoaderSymbols);
    assert_eq!(m.on_event(Event::SymbolsResolved), Step::AllocLoaderRegion { size: 0x1000 });
    assert_eq!(
        m.on_event(Event::Allocated { base: 0x7000_0000 }),
        Step::WriteLoader { loader_base: 0x7000_0000, image_base: IMAGE_BASE }
    );
    assert_eq!(
        m.on_event(Event::Wrote),
        Step::SpawnThread { loader_base: 0x7000_0000, image_base: IMAGE_BASE }
    );
    assert_eq!(m.on_event(Event::Spawned), Step::CloseHandle);
    assert_eq!(m.on_event(Event::Closed), Step::Succeeded);
    assert_eq!(m.stage, Stage::Done);
    assert!(!m.handle_open);
    // exactly the two regions stay with the target
    assert!(m.image_allocated && m.loader_allocated);
    assert_eq!(m.image_base, IMAGE_BASE);
    assert_eq!(m.image_size, IMAGE_SIZE);
    // no relocation work at the preferred base
    assert_eq!(
        loader_plan(&pe, IMAGE_BASE),
        vec![LoaderStep::CallEntryPoint { rva: 0x1500 }]
    );
}

#[test]
fn occupied_preferred_base_falls_back() {
    let pe = test_pe(0, 0, 0);
    let (mut m, _) = Injection::begin(&pe, 7);
    m.on_event(Event::Opened);
    // the target pre-occupies the preferred base
    assert_eq!(
        m.on_event(Event::AllocDenied),
        Step::AllocImageAnywhere { size: IMAGE_SIZE }
    );
    let chosen: u64 = 0x2_4000_0000;
    assert_eq!(
        m.on_event(Event::Allocated { base: chosen }),
        Step::WriteImage { base: chosen }
    );
    assert_eq!(m.image_base, chosen);
    // the image moved but has no relocation directory: no fix-up step
    assert_eq!(
        loader_plan(&pe, chosen),
        vec![LoaderStep::CallEntryPoint { rva: 0x1500 }]
    );
}

#[test]
fn moved_base_with_relocations_plans_fixups_first() {
    let pe = test_pe(14, 40, 0);
    let chosen: u64 = 0x2_4000_0000;
    assert_eq!(
        loader_plan(&pe, chosen),
        vec![
            LoaderStep::ApplyRelocations { delta: chosen - IMAGE_BASE },
            LoaderStep::ResolveImports,
            LoaderStep::CallEntryPoint { rva: 0x1500 },
        ]
    );
}

#[test]
fn tls_callbacks_run_before_the_entry_point() {
    let pe = test_pe(0, 0, 40);
    let plan = loader_plan(&pe, IMAGE_BASE);
    assert_eq!(
        plan,
        vec![LoaderStep::InvokeTlsCallbacks, LoaderStep::CallEntryPoint { rva: 0x1500 }]
    );
    // the attach callbacks precede the entry-point call
    assert_eq!(plan.last(), Some(&LoaderStep::CallEntryPoint { rva: 0x1500 }));
}

#[test]
fn open_failure_aborts_holding_nothing() {
    let pe = test_pe(0, 0, 0);
    let (mut m, _) = Injection::begin(&pe, 7);
    assert_eq!(
        m.on_event(Event::OpenDenied),
        Step::Aborted { error: manualmap::errors::InjectError::OpenFailed }
    );
    assert_eq!(m.stage, Stage::Failed);
    assert!(!m.handle_open && !m.image_allocated && !m.loader_allocated);
}

#[test]
fn both_allocations_failing_closes_the_handle() {
    let pe = test_pe(0, 0, 0);
    let (mut m, _) = Injection::begin(&pe, 7);
    m.on_event(Event::Opened);
    m.on_event(Event::AllocDenied);
    assert_eq!(m.on_event(Event::AllocDenied), Step::CloseHandle);
    assert_eq!(
        m.on_event(Event::Closed),
        Step::Aborted { error: manualmap::errors::InjectError::AllocFailed }
    );
    assert_eq!(m.stage, Stage::Failed);
    assert!(!m.handle_open && !m.image_allocated && !m.loader_allocated);
}

#[test]
fn write_failure_frees_the_image_and_closes() {
    let pe = test_pe(0, 0, 0);
    let (mut m, _) = Injection::begin(&pe, 7);
    m.on_event(Event::Opened);
    m.on_event(Event::Allocated { base: IMAGE_BASE });
    assert_eq!(
        m.on_event(Event::WriteDenied),
        Step::FreeRegion { base: IMAGE_BASE, size: IMAGE_SIZE }
    );
    assert_eq!(m.on_event(Event::Freed), Step::CloseHandle);
    assert_eq!(
        m.on_event(Event::Closed),
        Step::Aborted { error: manualmap::errors::InjectError::RemoteWriteFailed }
    );
    assert!(!m.handle_open && !m.image_allocated && !m.loader_allocated);
}

#[test]
fn missing_symbol_frees_the_image_and_closes() {
    let pe = test_pe(0, 0, 0);
    let (mut m, _) = Injection::begin(&pe, 7);
    m.on_event(Event::Opened);
    m.on_event(Event::Allocated { base: IMAGE_BASE });
    m.on_event(Event::Wrote);
    assert_eq!(
        m.on_event(Event::SymbolsMissing),
        Step::FreeRegion { base: IMAGE_BASE, size: IMAGE_SIZE }
    );
    assert_eq!(m.on_event(Event::Freed), Step::CloseHandle);
    assert_eq!(
        m.on_event(Event::Closed),
        Step::Aborted { error: manualmap::errors::InjectError::SystemSymbolMissing }
    );
    assert_eq!(m.stage, Stage::Failed);
}

#[test]
fn spawn_failure_frees_both_regions_in_reverse_order() {
    let pe = test_pe(0, 0, 0);
    let (mut m, _) = Injection::begin(&pe, 7);
    m.on_event(Event::Opened);
    m.on_event(Event::Allocated { base: IMAGE_BASE });
    m.on_event(Event::Wrote);
    m.on_event(Event::SymbolsResolved);
    m.on_event(Event::Allocated { base: 0x7000_0000 });
    m.on_event(Event::Wrote);
    assert_eq!(
        m.on_event(Event::SpawnDenied),
        Step::FreeRegion { base: 0x7000_0000, size: 0x1000 }
    );
    assert_eq!(
        m.on_event(Event::Freed),
        Step::FreeRegion { base: IMAGE_BASE, size: IMAGE_SIZE }
    );
    assert_eq!(m.on_event(Event::Freed), Step::CloseHandle);
    assert_eq!(
        m.on_event(Event::Closed),
        Step::Aborted { error: manualmap::errors::InjectError::ThreadCreateFailed }
    );
    assert!(!m.handle_open && !m.image_allocated && !m.loader_allocated);
}

#[test]
fn section_name_wraps_and_prints_its_bytes() {
    let n = SectionName::from(*b".text\0\0\0");
    assert_eq!(n.bytes, *b".text\0\0\0");
    assert_eq!(n.display_string(), ".text\0\0\0");
}

#[test]
fn exe_name_reads_up_to_the_nul() {
    let mut arr = [0i8; 260];
    for (i, b) in b"notepad.exe".iter().enumerate() {
        arr[i] = *b as i8;
    }
    assert_eq!(sz_exe_to_string(arr), "notepad.exe");
}

#[test]
fn exe_name_of_all_nuls_is_empty() {
    let arr = [0i8; 260];
    assert_eq!(sz_exe_to_string(arr), "");
}

#[test]
fn invalid_utf8_exe_name_reports_the_note() {
    let mut arr = [0i8; 260];
    arr[0] = -61; // a lone UTF-8 lead byte
    assert_eq!(sz_exe_to_string(arr), "Error Getting Process Name");
}
