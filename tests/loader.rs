use jitarm::error::ErrorKind;
use jitarm::memory::page_align;
use jitarm::nro::{text_words, Nro, NroSegmentHeader};

fn put(b: &mut Vec<u8>, off: usize, v: u32) {
    b[off..off + 4].copy_from_slice(&v.to_le_bytes());
}

fn image(size: u32, bss: u32) -> Vec<u8> {
    let mut b = vec![0u8; 0x90];
    b[16..20].copy_from_slice(b"NRO0");
    put(&mut b, 24, size);
    put(&mut b, 32, 0);
    put(&mut b, 36, 8);
    put(&mut b, 56, bss);
    for i in 0..16 {
        b[0x80 + i] = i as u8 + 1;
    }
    b
}

#[test]
fn page_align_rounds_up() {
    assert_eq!(page_align(0), 0);
    assert_eq!(page_align(1), 4096);
    assert_eq!(page_align(4096), 4096);
    assert_eq!(page_align(4097), 8192);
}

#[test]
fn image_needs_header_and_magic() {
    assert_eq!(Nro::new(vec![0u8; 16]).err().unwrap().kind, ErrorKind::Image);
    let mut b = image(0x90, 0);
    b[16] = b'X';
    assert_eq!(Nro::new(b).err().unwrap().kind, ErrorKind::Image);
    assert!(Nro::new(image(0x90, 0)).is_ok());
}

#[test]
fn header_and_segments_are_read() {
    let nro = Nro::new(image(0x90, 0x10)).ok().unwrap();
    let h = nro.get_header();
    assert_eq!(h.size, 0x90);
    assert_eq!(h.bss_size, 0x10);
    assert_eq!(h.text_segment_header, NroSegmentHeader { memory_offset: 0, size: 8 });
    let text = nro.get_segment(&h.text_segment_header).unwrap();
    assert_eq!(text, vec![1, 2, 3, 4, 5, 6, 7, 8]);
    assert_eq!(text_words(&text), vec![0x0403_0201, 0x0807_0605]);
    assert!(nro.get_segment(&NroSegmentHeader { memory_offset: 8, size: 9 }).is_none());
    assert!(nro.get_mod_header().is_none());
}

#[test]
fn memory_is_page_aligned_image_then_bss() {
    let nro = Nro::new(image(0x90, 0x10)).ok().unwrap();
    let mem = nro.build_memory().ok().unwrap();
    assert_eq!(mem.len(), 8192);
    assert_eq!(&mem[0x80..0x82], &[1, 2]);
    assert!(mem[0x90..].iter().all(|&b| b == 0));
}

#[test]
fn module_header_gives_bss_size() {
    let mut b = image(0x90, 0x10);
    put(&mut b, 4, 0x60);
    b[0x68..0x6c].copy_from_slice(b"MOD0");
    put(&mut b, 0x70, 0x100);
    put(&mut b, 0x74, 0x2100);
    let nro = Nro::new(b).ok().unwrap();
    let m = nro.get_mod_header().unwrap();
    assert_eq!((m.bss_start_offset, m.bss_end_offset), (0x100, 0x2100));
    assert_eq!(nro.build_memory().ok().unwrap().len(), 4096 + 8192);
    let mut b = image(0x90, 0);
    put(&mut b, 4, 0x60);
    b[0x68..0x6c].copy_from_slice(b"MOD0");
    put(&mut b, 0x70, 0x200);
    put(&mut b, 0x74, 0x100);
    assert_eq!(Nro::new(b).ok().unwrap().build_memory().err().unwrap().kind, ErrorKind::Image);
}
