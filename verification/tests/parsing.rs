use bifrost::errno::EINVAL;
use bifrost::load_prog_parse::{parse_load_prog, padded_copy, LoadProgLayout};
use bifrost::wire::{ProbeType, ProbeTypeCodes};

fn codes() -> ProbeTypeCodes {
    ProbeTypeCodes {
        none: 255,
        fentry: 2,
        fexit: 3,
        tracepoint: 4,
        uprobe: 5,
        uretprobe: 6,
        uprobe_by_sym: 7,
        uretprobe_by_sym: 8,
        usdt: 9,
        profile_timer: 10,
    }
}

fn u32s(vs: &[u32]) -> Vec<u8> {
    vs.iter().flat_map(|v| v.to_le_bytes()).collect()
}

fn counted(s: &[u8]) -> Vec<u8> {
    let mut r = u32s(&[s.len() as u32]);
    r.extend_from_slice(s);
    r
}

fn name32(s: &[u8]) -> Vec<u8> {
    let mut r = s.to_vec();
    r.resize(32, 0);
    r
}

struct Cmd {
    num_maps: u32,
    family: u8,
    trailer: Vec<u8>,
    maps: Vec<u8>,
    insns: Vec<[u8; 8]>,
    num_relocs: u32,
    relocs: Vec<u8>,
}

impl Cmd {
    fn new(family: u8) -> Cmd {
        Cmd {
            num_maps: 0,
            family,
            trailer: vec![],
            maps: vec![],
            insns: vec![[0x95, 0, 0, 0, 0, 0, 0, 0]],
            num_relocs: 0,
            relocs: vec![],
        }
    }

    fn body(&self) -> Vec<u8> {
        let mut b = u32s(&[self.num_maps]);
        b.extend(name32(b"sched_switch"));
        b.extend(u32s(&[0xab00 | self.family as u32]));
        b.extend(&self.trailer);
        b.extend(&self.maps);
        b.extend(u32s(&[self.insns.len() as u32]));
        for i in &self.insns {
            b.extend(i);
        }
        b.extend(u32s(&[self.num_relocs]));
        b.extend(&self.relocs);
        b
    }

    fn bytes(&self) -> Vec<u8> {
        let body = self.body();
        let mut c = u32s(&[2, body.len() as u32]);
        c.extend(body);
        c.extend(77u64.to_le_bytes());
        c
    }

    fn parse(&self) -> Result<LoadProgLayout, i32> {
        parse_load_prog(&codes(), &self.bytes())
    }

    fn refused(&self) {
        assert_eq!(self.parse().err(), Some(-EINVAL));
    }
}

fn reloc(idx: u32, name: &[u8]) -> Vec<u8> {
    let mut r = u32s(&[idx]);
    r.push(name.len() as u8);
    r.extend_from_slice(name);
    r
}

const MAP_LOAD: [u8; 8] = [0x18, 0x11, 0, 0, 100, 0, 0, 0];

#[test]
fn probe_families() {
    let c = codes();
    assert_eq!(c.probe_type(2), ProbeType::Fentry);
    assert_eq!(c.probe_type(10), ProbeType::ProfileTimer);
    assert_eq!(c.probe_type(255), ProbeType::Unregistered);
    assert_eq!(c.probe_type(0), ProbeType::Unknown);
    assert_eq!(c.probe_type(1), ProbeType::Unknown);
}

#[test]
fn a_plain_command_is_accepted() {
    let mut c = Cmd::new(4);
    c.num_maps = 2;
    c.maps = vec![0; 48];
    c.num_relocs = 1;
    c.relocs = reloc(0, b"bpf_x");
    let l = c.parse().unwrap();
    assert_eq!(l.num_maps, 2);
    assert_eq!(l.target_name, name32(b"sched_switch"));
    assert_eq!(l.flags, 0xab04);
    assert_eq!(l.probe_type, 4);
    assert_eq!(l.maps_off, 40);
    assert_eq!(l.insns_header_off, 88);
    assert_eq!(l.insns_off, 92);
    assert_eq!(l.num_insns, 1);
    assert_eq!(l.relocs_off, 100);
    assert_eq!(l.num_relocs, 1);
    assert_eq!(l.uprobe_path_len, 0);
    assert_eq!(l.uprobe_path_buf, vec![0; 257]);
    assert_eq!(l.uprobe_file_offset, 0);
}

#[test]
fn a_uprobe_carries_path_and_offset() {
    for family in [5, 6] {
        let mut c = Cmd::new(family);
        c.trailer = counted(b"/bin/sh");
        c.trailer.extend(0x1234_5678_9abcu64.to_le_bytes());
        let l = c.parse().unwrap();
        assert_eq!(&l.uprobe_path_buf[..8], b"/bin/sh\0");
        assert_eq!(l.uprobe_path_buf.len(), 257);
        assert_eq!(l.uprobe_path_len, 7);
        assert_eq!(l.uprobe_file_offset, 0x1234_5678_9abc);
        assert_eq!(l.maps_off, 40 + 4 + 7 + 8);
    }
}

#[test]
fn a_uprobe_path_may_be_empty_and_is_capped() {
    let with = |n: usize| {
        let mut c = Cmd::new(5);
        c.trailer = counted(&vec![b'p'; n]);
        c.trailer.extend([0; 8]);
        c
    };
    assert_eq!(with(0).parse().unwrap().uprobe_path_len, 0);
    assert_eq!(with(256).parse().unwrap().uprobe_path_len, 256);
    with(257).refused();
}

#[test]
fn a_uprobe_by_symbol_carries_two_names() {
    for family in [7, 8] {
        let mut c = Cmd::new(family);
        c.trailer = counted(b"redis-server");
        c.trailer.extend(counted(b"processCommand"));
        let l = c.parse().unwrap();
        assert_eq!(&l.uprobe_basename[..l.uprobe_basename_len], b"redis-server");
        assert_eq!(&l.uprobe_symbol[..l.uprobe_symbol_len], b"processCommand");
        assert_eq!(l.uprobe_provider_len, 0);
        assert_eq!(l.uprobe_basename.len(), 65);
        assert_eq!(l.uprobe_symbol.len(), 257);
    }
}

#[test]
fn names_of_symbol_probes_are_bounded() {
    let with = |b: usize, s: usize| {
        let mut c = Cmd::new(7);
        c.trailer = counted(&vec![b'b'; b]);
        c.trailer.extend(counted(&vec![b's'; s]));
        c
    };
    assert!(with(64, 256).parse().is_ok());
    assert!(with(1, 1).parse().is_ok());
    with(0, 1).refused();
    with(1, 0).refused();
    with(65, 1).refused();
    with(1, 257).refused();
}

#[test]
fn a_static_probe_carries_three_names() {
    let mut c = Cmd::new(9);
    c.trailer = counted(b"postgres");
    c.trailer.extend(counted(b"postgresql"));
    c.trailer.extend(counted(b"query__start"));
    let l = c.parse().unwrap();
    assert_eq!(&l.uprobe_basename[..l.uprobe_basename_len], b"postgres");
    assert_eq!(&l.uprobe_provider[..l.uprobe_provider_len], b"postgresql");
    assert_eq!(&l.uprobe_symbol[..l.uprobe_symbol_len], b"query__start");
}

#[test]
fn provider_names_are_bounded() {
    let with = |p: usize| {
        let mut c = Cmd::new(9);
        c.trailer = counted(b"b");
        c.trailer.extend(counted(&vec![b'p'; p]));
        c.trailer.extend(counted(b"s"));
        c
    };
    assert!(with(64).parse().is_ok());
    with(0).refused();
    with(65).refused();
}

#[test]
fn maps_are_capped_at_eight() {
    let with = |n: u32| {
        let mut c = Cmd::new(4);
        c.num_maps = n;
        c.maps = vec![0; 24 * n as usize];
        c
    };
    assert_eq!(with(8).parse().unwrap().num_maps, 8);
    with(9).refused();
    let mut huge = Cmd::new(4);
    huge.num_maps = u32::MAX;
    huge.refused();
}

#[test]
fn every_truncation_is_refused() {
    let mut c = Cmd::new(9);
    c.trailer = counted(b"b");
    c.trailer.extend(counted(b"p"));
    c.trailer.extend(counted(b"s"));
    c.num_maps = 1;
    c.maps = vec![0; 24];
    c.num_relocs = 2;
    c.relocs = [reloc(0, b"one"), reloc(0, b"two")].concat();
    let body = c.body();
    assert!(parse_load_prog(&codes(), &c.bytes()).is_ok());
    for n in 0..body.len() {
        let mut cmd = u32s(&[2, n as u32]);
        cmd.extend(&body[..n]);
        assert_eq!(parse_load_prog(&codes(), &cmd).err(), Some(-EINVAL), "{}", n);
    }
}

#[test]
fn the_declared_length_decides() {
    let c = Cmd::new(4);
    let body = c.body();
    // more declared than received
    let mut cmd = u32s(&[2, body.len() as u32 + 1]);
    cmd.extend(&body);
    assert_eq!(parse_load_prog(&codes(), &cmd).err(), Some(-EINVAL));
    // no header
    assert_eq!(parse_load_prog(&codes(), &cmd[..7]).err(), Some(-EINVAL));
    assert_eq!(parse_load_prog(&codes(), &[]).err(), Some(-EINVAL));
    // what follows the body is ignored
    let mut long = u32s(&[2, body.len() as u32]);
    long.extend(&body);
    long.extend([0xff; 100]);
    assert_eq!(parse_load_prog(&codes(), &long).unwrap().num_insns, 1);
}

#[test]
fn a_map_load_must_have_its_second_half() {
    let mut c = Cmd::new(4);
    c.insns = vec![MAP_LOAD];
    c.refused();
    c.insns = vec![MAP_LOAD, [0; 8]];
    assert!(c.parse().is_ok());
    // the second half is skipped, whatever it looks like
    c.insns = vec![MAP_LOAD, MAP_LOAD];
    assert!(c.parse().is_ok());
    c.insns = vec![MAP_LOAD, [0; 8], MAP_LOAD];
    c.refused();
    // a plain 64-bit load is no map load
    c.insns = vec![[0x18, 0x01, 0, 0, 0, 0, 0, 0]];
    assert!(c.parse().is_ok());
}

#[test]
fn relocations_are_checked() {
    let with = |relocs: Vec<u8>| {
        let mut c = Cmd::new(4);
        c.num_relocs = 1;
        c.relocs = relocs;
        c
    };
    assert!(with(reloc(0, b"f")).parse().is_ok());
    assert!(with(reloc(0, &[b'f'; 255])).parse().is_ok());
    with(reloc(0, b"")).refused();
    with(reloc(1, b"f")).refused();
    with(vec![]).refused();
    let mut many = Cmd::new(4);
    many.num_relocs = u32::MAX;
    many.refused();
}

#[test]
fn instruction_counts_cannot_overflow() {
    let c = Cmd::new(4);
    let mut cmd = c.bytes();
    cmd[48..52].copy_from_slice(&u32::MAX.to_le_bytes());
    assert_eq!(parse_load_prog(&codes(), &cmd).err(), Some(-EINVAL));
}

#[test]
fn unknown_families_have_no_trailer() {
    let l = Cmd::new(0).parse().unwrap();
    assert_eq!(l.probe_type, 0);
    assert_eq!(l.maps_off, 40);
}

#[test]
fn copies_are_padded() {
    assert_eq!(padded_copy(b"abcdef", 1, 3, 4), vec![b'b', b'c', 0, 0]);
    assert_eq!(padded_copy(b"abcdef", 1, 6, 2), vec![b'b', b'c']);
    assert_eq!(padded_copy(b"", 0, 0, 0), vec![]);
}
