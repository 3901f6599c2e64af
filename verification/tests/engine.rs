use manualmap::bytes::{read_u16, read_u32, read_u64, write_u64};
use manualmap::errors::InjectError;
use manualmap::image::build_image;
use manualmap::imports::{
    apply_import_resolutions, interpret_thunk, lookup_array, parse_imports, read_cstring,
    read_u64_list, ThunkKind,
};
use manualmap::pe::parse_pe;
use manualmap::reloc::{apply_relocations, parse_relocations, relocate_image, RelocBlock};
use manualmap::tls::tls_callbacks;

const IMAGE_BASE: u64 = 0x1_8000_0000;

fn put16(v: &mut Vec<u8>, off: usize, x: u16) {
    let b = x.to_le_bytes();
    v[off] = b[0];
    v[off + 1] = b[1];
}

fn put32(v: &mut Vec<u8>, off: usize, x: u32) {
    let b = x.to_le_bytes();
    for i in 0..4 {
        v[off + i] = b[i];
    }
}

fn put64(v: &mut Vec<u8>, off: usize, x: u64) {
    let b = x.to_le_bytes();
    for i in 0..8 {
        v[off + i] = b[i];
    }
}

fn put_bytes(v: &mut Vec<u8>, off: usize, bytes: &[u8]) {
    for (i, b) in bytes.iter().enumerate() {
        v[off + i] = *b;
    }
}

/// A minimal 64-bit DLL image: headers in the first 0x1000 bytes, one
/// section `.text` of 0x1000 raw bytes at virtual address 0x1000, raw data
/// at file offset 0x1000, image size 0x3000.
fn build_test_dll() -> Vec<u8> {
    let mut v = vec![0u8; 0x2000];
    v[0] = b'M';
    v[1] = b'Z';
    put32(&mut v, 0x3c, 0x80); // e_lfanew
    put_bytes(&mut v, 0x80, b"PE\0\0");
    put16(&mut v, 0x86, 1); // NumberOfSections
    put16(&mut v, 0x94, 240); // SizeOfOptionalHeader
    put16(&mut v, 0x98, 0x20b); // optional magic, PE32+
    put32(&mut v, 0xa8, 0x1500); // AddressOfEntryPoint
    put64(&mut v, 0xb0, IMAGE_BASE); // ImageBase
    put32(&mut v, 0xd0, 0x3000); // SizeOfImage
    // section table at 0x98 + 240 = 0x188
    put_bytes(&mut v, 0x188, b".text\0\0\0");
    put32(&mut v, 0x190, 0x1000); // VirtualSize
    put32(&mut v, 0x194, 0x1000); // VirtualAddress
    put32(&mut v, 0x198, 0x1000); // SizeOfRawData
    put32(&mut v, 0x19c, 0x1000); // PointerToRawData
    // distinctive section payload
    for i in 0..0x1000 {
        v[0x1000 + i] = (i % 251) as u8;
    }
    v
}

#[test]
fn word_roundtrip() {
    let mut v = vec![0u8; 32];
    write_u64(&mut v, 5, 0x0123_4567_89ab_cdef);
    assert_eq!(read_u64(&v, 5), 0x0123_4567_89ab_cdef);
    assert_eq!(v[5], 0xef);
    assert_eq!(v[12], 0x01);
    put32(&mut v, 20, 0xdeadbeef);
    assert_eq!(read_u32(&v, 20), 0xdeadbeef);
    put16(&mut v, 30, 0x5a4d);
    assert_eq!(read_u16(&v, 30), 0x5a4d);
}

#[test]
fn parse_accepts_wellformed_dll() {
    let dll = build_test_dll();
    let pe = parse_pe(&dll).expect("well-formed image must parse");
    assert_eq!(pe.e_lfanew, 0x80);
    assert_eq!(pe.number_of_sections, 1);
    assert_eq!(pe.address_of_entry_point, 0x1500);
    assert_eq!(pe.image_base, IMAGE_BASE);
    assert_eq!(pe.size_of_image, 0x3000);
    assert_eq!(pe.directories.len(), 16);
    assert_eq!(pe.sections.len(), 1);
    assert_eq!(pe.sections[0].name, b".text\0\0\0".to_vec());
    assert_eq!(pe.sections[0].virtual_address, 0x1000);
    assert_eq!(pe.sections[0].size_of_raw_data, 0x1000);
    assert_eq!(pe.sections[0].pointer_to_raw_data, 0x1000);
}

#[test]
fn parse_accepts_image_without_sections() {
    let mut dll = build_test_dll();
    put16(&mut dll, 0x86, 0);
    let pe = parse_pe(&dll).expect("a sectionless image still parses");
    assert_eq!(pe.number_of_sections, 0);
    let img = build_image(&dll, &pe);
    assert_eq!(img.len(), 0x3000);
    assert_eq!(&img[..0x1000], &dll[..0x1000]);
    assert!(img[0x1000..].iter().all(|b| *b == 0));
}

#[test]
fn parse_rejects_lfanew_past_end() {
    let mut dll = build_test_dll();
    put32(&mut dll, 0x3c, 0x10_0000); // e_lfanew far past the buffer
    assert_eq!(parse_pe(&dll), Err(InjectError::InvalidPE));
}

#[test]
fn parse_rejects_bad_signatures() {
    let mut dll = build_test_dll();
    dll[0] = b'X';
    assert_eq!(parse_pe(&dll), Err(InjectError::InvalidPE));
    let mut dll = build_test_dll();
    dll[0x80] = b'Q';
    assert_eq!(parse_pe(&dll), Err(InjectError::InvalidPE));
    let mut dll = build_test_dll();
    put16(&mut dll, 0x98, 0x10b); // 32-bit optional header
    assert_eq!(parse_pe(&dll), Err(InjectError::InvalidPE));
}

#[test]
fn parse_rejects_short_buffer() {
    let dll = vec![0u8; 0x200];
    assert_eq!(parse_pe(&dll), Err(InjectError::InvalidPE));
}

#[test]
fn parse_rejects_section_outside_buffer() {
    let mut dll = build_test_dll();
    put32(&mut dll, 0x19c, 0x1800); // PointerToRawData + SizeOfRawData > file size
    assert_eq!(parse_pe(&dll), Err(InjectError::InvalidPE));
}

#[test]
fn parse_rejects_section_outside_image() {
    let mut dll = build_test_dll();
    put32(&mut dll, 0x194, 0x2800); // VirtualAddress + SizeOfRawData > SizeOfImage
    assert_eq!(parse_pe(&dll), Err(InjectError::InvalidPE));
}

#[test]
fn mapped_image_carries_headers_and_sections() {
    let dll = build_test_dll();
    let pe = parse_pe(&dll).unwrap();
    let img = build_image(&dll, &pe);
    assert_eq!(img.len(), 0x3000);
    // header prefix
    assert_eq!(&img[..0x1000], &dll[..0x1000]);
    // section bytes at its virtual address equal the raw bytes
    assert_eq!(&img[0x1000..0x2000], &dll[0x1000..0x2000]);
    // the gap past the section is zero-filled
    assert!(img[0x2000..].iter().all(|b| *b == 0));
}

#[test]
fn mapped_image_reparses_identically() {
    let dll = build_test_dll();
    let pe = parse_pe(&dll).unwrap();
    let img = build_image(&dll, &pe);
    let pe2 = parse_pe(&img).expect("the mapped image re-parses from its base");
    assert_eq!(pe2.number_of_sections, pe.number_of_sections);
    assert_eq!(pe2.e_lfanew, pe.e_lfanew);
    assert_eq!(pe2.size_of_image, pe.size_of_image);
    assert_eq!(pe2.image_base, pe.image_base);
    for j in 0..16 {
        assert_eq!(pe2.directories[j].virtual_address, pe.directories[j].virtual_address);
        assert_eq!(pe2.directories[j].size, pe.directories[j].size);
    }
}

fn dll_with_relocations() -> Vec<u8> {
    let mut dll = build_test_dll();
    // a pointer-sized word the entry code would use, linked for IMAGE_BASE
    put64(&mut dll, 0x1008, IMAGE_BASE + 0x123);
    put64(&mut dll, 0x1018, IMAGE_BASE + 0x456);
    // relocation block at virtual address 0x1100: page 0x1000, size 14,
    // two 64-bit entries at page offsets 8 and 0x18, one padding entry;
    // a zero page terminates the walk
    for i in 0x1100..0x1120 {
        dll[i] = 0;
    }
    put32(&mut dll, 0x1100, 0x1000);
    put32(&mut dll, 0x1104, 14);
    put16(&mut dll, 0x1108, 0xa008);
    put16(&mut dll, 0x110a, 0xa018);
    put16(&mut dll, 0x110c, 0x0000);
    // base-relocation directory
    put32(&mut dll, 0x108 + 8 * 5, 0x1100);
    put32(&mut dll, 0x108 + 8 * 5 + 4, 14);
    dll
}

#[test]
fn relocated_slots_gain_exactly_the_delta() {
    let dll = dll_with_relocations();
    let pe = parse_pe(&dll).unwrap();
    let mut img = build_image(&dll, &pe);
    let new_base: u64 = 0x2_4000_0000;
    let delta = new_base.wrapping_sub(IMAGE_BASE);
    let blocks = parse_relocations(&img, pe.directories[5].virtual_address).unwrap();
    assert_eq!(blocks.len(), 1);
    assert_eq!(blocks[0].page_rva, 0x1000);
    assert_eq!(blocks[0].entries, vec![0xa008, 0xa018, 0x0000]);
    apply_relocations(&mut img, &blocks, delta);
    assert_eq!(read_u64(&img, 0x1008), new_base + 0x123);
    assert_eq!(read_u64(&img, 0x1018), new_base + 0x456);
    // bytes outside the two slots are untouched
    assert_eq!(img[0x1000], 0 % 251);
    assert_eq!(img[0x1017], dll[0x1017]);
}

#[test]
fn relocation_order_within_a_block_is_immaterial() {
    let dll = dll_with_relocations();
    let pe = parse_pe(&dll).unwrap();
    let img = build_image(&dll, &pe);
    let delta: u64 = 0xc000_0000;
    let mut in_order = img.clone();
    let mut swapped = img.clone();
    let blocks1 = vec![RelocBlock { page_rva: 0x1000, entries: vec![0xa008, 0xa018] }];
    let blocks2 = vec![RelocBlock { page_rva: 0x1000, entries: vec![0xa018, 0xa008] }];
    apply_relocations(&mut in_order, &blocks1, delta);
    apply_relocations(&mut swapped, &blocks2, delta);
    assert_eq!(in_order, swapped);
}

#[test]
fn relocate_image_walks_and_patches_in_one_pass() {
    let dll = dll_with_relocations();
    let pe = parse_pe(&dll).unwrap();
    let mut img = build_image(&dll, &pe);
    let delta: u64 = 0x4000_0000;
    relocate_image(&mut img, pe.directories[5].virtual_address, delta).unwrap();
    assert_eq!(read_u64(&img, 0x1008), IMAGE_BASE + 0x123 + delta);
    assert_eq!(read_u64(&img, 0x1018), IMAGE_BASE + 0x456 + delta);
}

#[test]
fn relocation_walk_rejects_runaway_directory() {
    let dll = dll_with_relocations();
    let pe = parse_pe(&dll).unwrap();
    let mut img = build_image(&dll, &pe);
    put32(&mut img, 0x1104, 4); // block size below the header size
    assert_eq!(parse_relocations(&img, 0x1100), Err(InjectError::InvalidPE));
    let mut img2 = build_image(&dll, &pe);
    put32(&mut img2, 0x1104, 0x4000); // block size past the image end
    assert_eq!(parse_relocations(&img2, 0x1100), Err(InjectError::InvalidPE));
}

fn dll_with_imports() -> Vec<u8> {
    let mut dll = build_test_dll();
    for i in 0x1200..0x1380 {
        dll[i] = 0;
    }
    // import descriptor at virtual address 0x1200
    put32(&mut dll, 0x1200, 0x1300); // OriginalFirstThunk
    put32(&mut dll, 0x120c, 0x1320); // Name
    put32(&mut dll, 0x1210, 0x1340); // FirstThunk
    // terminating descriptor at 0x1214 is already zero
    // lookup thunk array: one name import, then the terminator
    put64(&mut dll, 0x1300, 0x1360);
    // module name
    put_bytes(&mut dll, 0x1320, b"user32.dll\0");
    // address thunk array mirrors the lookup array
    put64(&mut dll, 0x1340, 0x1360);
    // hint, then the symbol name
    put16(&mut dll, 0x1360, 0);
    put_bytes(&mut dll, 0x1362, b"MessageBoxA\0");
    // import directory
    put32(&mut dll, 0x108 + 8 * 1, 0x1200);
    put32(&mut dll, 0x108 + 8 * 1 + 4, 40);
    dll
}

#[test]
fn import_walk_finds_module_and_symbol() {
    let dll = dll_with_imports();
    let pe = parse_pe(&dll).unwrap();
    let img = build_image(&dll, &pe);
    let descs = parse_imports(&img, pe.directories[1].virtual_address).unwrap();
    assert_eq!(descs.len(), 1);
    assert_eq!(descs[0].name_rva, 0x1320);
    assert_eq!(descs[0].original_first_thunk, 0x1300);
    assert_eq!(descs[0].first_thunk, 0x1340);
    assert_eq!(read_cstring(&img, descs[0].name_rva as u64).unwrap(), b"user32.dll".to_vec());
    assert_eq!(lookup_array(&descs[0]), 0x1300);
    let thunks = read_u64_list(&img, lookup_array(&descs[0]) as u64).unwrap();
    assert_eq!(thunks, vec![0x1360]);
    assert_eq!(interpret_thunk(thunks[0]), ThunkKind::ByName { rva: 0x1360 });
    let symbol = read_cstring(&img, thunks[0] + 2).unwrap();
    assert_eq!(symbol, b"MessageBoxA".to_vec());
    assert_eq!(
        interpret_thunk(0x8000_0000_0001_0042),
        ThunkKind::Ordinal { number: 0x42 }
    );
}

#[test]
fn resolved_address_lands_in_its_slot() {
    let dll = dll_with_imports();
    let pe = parse_pe(&dll).unwrap();
    let mut img = build_image(&dll, &pe);
    let resolved: u64 = 0x7ffa_1234_5678;
    apply_import_resolutions(&mut img, 0x1340, &vec![resolved]);
    assert_eq!(read_u64(&img, 0x1340), resolved);
    // the lookup array it was resolved from is untouched
    assert_eq!(read_u64(&img, 0x1300), 0x1360);
}

#[test]
fn import_walk_rejects_unterminated_table() {
    let dll = dll_with_imports();
    let pe = parse_pe(&dll).unwrap();
    let mut img = build_image(&dll, &pe);
    // place the descriptor table so close to the end that no terminator fits
    for off in (0x2ff0..0x3000).step_by(4) {
        put32(&mut img, off, 0x1320);
    }
    assert_eq!(parse_imports(&img, 0x2ff0), Err(InjectError::InvalidPE));
}

fn dll_with_tls() -> Vec<u8> {
    let mut dll = build_test_dll();
    for i in 0x1400..0x1440 {
        dll[i] = 0;
    }
    // TLS directory at virtual address 0x1400; callback array at 0x1430
    put64(&mut dll, 0x1418, IMAGE_BASE + 0x1430); // AddressOfCallBacks
    put64(&mut dll, 0x1430, IMAGE_BASE + 0x1500); // one callback
    // terminator at 0x1438 is already zero
    put32(&mut dll, 0x108 + 8 * 9, 0x1400);
    put32(&mut dll, 0x108 + 8 * 9 + 4, 40);
    dll
}

#[test]
fn tls_walk_finds_the_one_callback() {
    let dll = dll_with_tls();
    let pe = parse_pe(&dll).unwrap();
    let img = build_image(&dll, &pe);
    let cbs = tls_callbacks(&img, pe.directories[9].virtual_address, pe.image_base).unwrap();
    assert_eq!(cbs, vec![IMAGE_BASE + 0x1500]);
}

#[test]
fn tls_walk_accepts_missing_array() {
    let dll = build_test_dll();
    let pe = parse_pe(&dll).unwrap();
    let mut img = build_image(&dll, &pe);
    for i in 0x1400..0x1440 {
        img[i] = 0;
    }
    put32(&mut img, 0x108 + 8 * 9, 0x1400);
    // AddressOfCallBacks is zero: no callbacks
    let cbs = tls_callbacks(&img, 0x1400, pe.image_base).unwrap();
    assert!(cbs.is_empty());
}

#[test]
fn tls_walk_rejects_array_below_base() {
    let dll = dll_with_tls();
    let pe = parse_pe(&dll).unwrap();
    let mut img = build_image(&dll, &pe);
    put64(&mut img, 0x1418, 0x10); // callback array address below the image base
    assert_eq!(tls_callbacks(&img, 0x1400, pe.image_base), Err(InjectError::InvalidPE));
}

#[test]
fn prepare_rejects_invalid_buffer_before_any_step() {
    let mut dll = build_test_dll();
    put32(&mut dll, 0x3c, 0x10_0000);
    assert!(matches!(
        manualmap::inject::prepare_injection(&dll, 42),
        Err(InjectError::InvalidPE)
    ));
}

#[test]
fn prepare_hands_out_the_open_step_first() {
    let dll = build_test_dll();
    let (pe, img, machine, step) = manualmap::inject::prepare_injection(&dll, 42).unwrap();
    assert_eq!(step, manualmap::inject::Step::OpenProcess { pid: 42 });
    assert_eq!(machine.pid, 42);
    assert_eq!(machine.image_size, pe.size_of_image as u64);
    assert_eq!(machine.preferred_base, IMAGE_BASE);
    assert_eq!(img.len(), pe.size_of_image as usize);
}

#[test]
fn cstring_walk_rejects_missing_terminator() {
    let mut img = vec![1u8; 64];
    img[40] = 0;
    assert_eq!(read_cstring(&img, 20).unwrap(), vec![1u8; 20]);
    img[40] = 7;
    assert_eq!(read_cstring(&img, 20), Err(InjectError::InvalidPE));
}
