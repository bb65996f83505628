use std::collections::HashMap;

use elfdeps::args::Opt;
use elfdeps::config::ConfigLine;
use elfdeps::metadata::{extract_dependencies, MetadataError};
use elfdeps::paths::{candidate, relative_to_root};
use elfdeps::resolver::{Record, Resolution, Resolver, Step};
use elfdeps::{run, RunError};

fn push_u16(v: &mut Vec<u8>, x: u16) {
    v.extend_from_slice(&x.to_le_bytes());
}

fn push_u32(v: &mut Vec<u8>, x: u32) {
    v.extend_from_slice(&x.to_le_bytes());
}

fn push_u64(v: &mut Vec<u8>, x: u64) {
    v.extend_from_slice(&x.to_le_bytes());
}

/// A minimal 64-bit little-endian shared object whose dynamic table lists `needed`
/// (DT_NEEDED) and `rpaths` (DT_RPATH).
fn elf64(needed: &[&str], rpaths: &[&str]) -> Vec<u8> {
    let mut strtab = vec![0u8];
    let mut needed_off = Vec::new();
    for n in needed {
        needed_off.push(strtab.len() as u64);
        strtab.extend_from_slice(n.as_bytes());
        strtab.push(0);
    }
    let mut rpath_off = Vec::new();
    for r in rpaths {
        rpath_off.push(strtab.len() as u64);
        strtab.extend_from_slice(r.as_bytes());
        strtab.push(0);
    }
    let dyn_off: u64 = 64 + 2 * 56;
    let n_dyn = (needed.len() + rpaths.len() + 3) as u64;
    let str_off = dyn_off + 16 * n_dyn;
    let total = str_off + strtab.len() as u64;

    let mut v = vec![0x7f, b'E', b'L', b'F', 2, 1, 1, 0];
    v.resize(16, 0);
    push_u16(&mut v, 3);
    push_u16(&mut v, 0x3e);
    push_u32(&mut v, 1);
    push_u64(&mut v, 0);
    push_u64(&mut v, 64);
    push_u64(&mut v, 0);
    push_u32(&mut v, 0);
    push_u16(&mut v, 64);
    push_u16(&mut v, 56);
    push_u16(&mut v, 2);
    push_u16(&mut v, 64);
    push_u16(&mut v, 0);
    push_u16(&mut v, 0);
    // PT_LOAD covering the whole file
    push_u32(&mut v, 1);
    push_u32(&mut v, 4);
    push_u64(&mut v, 0);
    push_u64(&mut v, 0);
    push_u64(&mut v, 0);
    push_u64(&mut v, total);
    push_u64(&mut v, total);
    push_u64(&mut v, 0x1000);
    // PT_DYNAMIC
    push_u32(&mut v, 2);
    push_u32(&mut v, 4);
    push_u64(&mut v, dyn_off);
    push_u64(&mut v, dyn_off);
    push_u64(&mut v, dyn_off);
    push_u64(&mut v, 16 * n_dyn);
    push_u64(&mut v, 16 * n_dyn);
    push_u64(&mut v, 8);
    for off in &needed_off {
        push_u64(&mut v, 1);
        push_u64(&mut v, *off);
    }
    for off in &rpath_off {
        push_u64(&mut v, 15);
        push_u64(&mut v, *off);
    }
    push_u64(&mut v, 5);
    push_u64(&mut v, str_off);
    push_u64(&mut v, 10);
    push_u64(&mut v, strtab.len() as u64);
    push_u64(&mut v, 0);
    push_u64(&mut v, 0);
    v.extend_from_slice(&strtab);
    v
}

/// An ELF header of the given class with nothing usable after it.
fn bare_header(class: u8) -> Vec<u8> {
    let mut v = vec![0x7f, b'E', b'L', b'F', class, 1, 1];
    v.resize(16, 0);
    v
}

fn plain(text: &str) -> ConfigLine {
    ConfigLine { text: text.to_string(), exists: true, nested: Vec::new() }
}

fn options() -> Opt {
    Opt { confpath: "/etc/ld.so.conf".to_string(), sysroot: "/".to_string(), path: "/bin/app".to_string() }
}

/// Runs the resolver to the end against a file system held in memory.
fn drive(r: &mut Resolver, files: &HashMap<String, Vec<u8>>) -> Vec<String> {
    let mut out = Vec::new();
    loop {
        match r.step() {
            Step::Finished => break,
            Step::Report(rec) => out.push(render(&rec)),
            Step::Probe(c) => {
                let header = files.get(&c).map(|b| b[..b.len().min(16)].to_vec());
                if r.on_header(header.as_deref()) {
                    let contents = files.get(&c).cloned();
                    let rec = r.on_contents(contents.as_deref()).unwrap();
                    out.push(render(&rec));
                }
            }
        }
    }
    out
}

fn render(rec: &Record) -> String {
    match &rec.resolution {
        Resolution::Found(p) => format!("{} -> {}", rec.name, p),
        Resolution::Unresolved => format!("{} -> ???", rec.name),
    }
}

fn start(config: &[&str], root: &[u8], files: &HashMap<String, Vec<u8>>) -> Vec<String> {
    let lines: Vec<ConfigLine> = config.iter().map(|l| plain(l)).collect();
    let mut r = run(&options(), &lines, &root[..16], root).unwrap();
    drive(&mut r, files)
}

#[test]
fn end_to_end_found_then_unresolved() {
    let mut files = HashMap::new();
    files.insert("/lib/libc.so.6".to_string(), elf64(&[], &[]));
    let root = elf64(&["libc.so.6", "libm.so.6"], &[]);
    let out = start(&["/lib", "/usr/lib"], &root, &files);
    assert_eq!(out, vec!["libc.so.6 -> lib/libc.so.6", "libm.so.6 -> ???"]);
}

#[test]
fn first_search_path_wins() {
    let mut files = HashMap::new();
    files.insert("/lib/libz.so.1".to_string(), elf64(&[], &[]));
    files.insert("/usr/lib/libz.so.1".to_string(), elf64(&[], &[]));
    let root = elf64(&["libz.so.1"], &[]);
    let out = start(&["/usr/lib", "/lib"], &root, &files);
    assert_eq!(out, vec!["libz.so.1 -> usr/lib/libz.so.1"]);
}

#[test]
fn mutual_dependencies_terminate_with_one_record_each() {
    let mut files = HashMap::new();
    files.insert("/lib/liba.so".to_string(), elf64(&["libb.so"], &[]));
    files.insert("/lib/libb.so".to_string(), elf64(&["liba.so"], &[]));
    let root = elf64(&["liba.so"], &[]);
    let out = start(&["/lib"], &root, &files);
    assert_eq!(out, vec!["liba.so -> lib/liba.so", "libb.so -> lib/libb.so"]);
}

#[test]
fn missing_library_is_reported_once() {
    let files = HashMap::new();
    let root = elf64(&["libgone.so", "libgone.so"], &[]);
    let out = start(&["/lib", "/usr/lib"], &root, &files);
    assert_eq!(out, vec!["libgone.so -> ???"]);
}

#[test]
fn other_class_is_skipped() {
    let mut files = HashMap::new();
    files.insert("/lib/libx.so".to_string(), bare_header(1));
    files.insert("/lib64/libx.so".to_string(), elf64(&[], &[]));
    let root = elf64(&["libx.so"], &[]);
    let out = start(&["/lib", "/lib64"], &root, &files);
    assert_eq!(out, vec!["libx.so -> lib64/libx.so"]);
    let only32 = {
        let mut f = HashMap::new();
        f.insert("/lib/libx.so".to_string(), bare_header(1));
        f
    };
    assert_eq!(start(&["/lib"], &root, &only32), vec!["libx.so -> ???"]);
}

#[test]
fn unreadable_candidate_is_skipped() {
    let mut files = HashMap::new();
    files.insert("/lib/liby.so".to_string(), vec![1, 2, 3]);
    files.insert("/usr/lib/liby.so".to_string(), elf64(&[], &[]));
    let root = elf64(&["liby.so"], &[]);
    assert_eq!(start(&["/lib", "/usr/lib"], &root, &files), vec!["liby.so -> usr/lib/liby.so"]);
}

#[test]
fn runtime_search_paths_are_probed_last() {
    let mut files = HashMap::new();
    files.insert("/opt/app/lib/libq.so".to_string(), elf64(&["libr.so"], &["/opt/more"]));
    files.insert("/opt/more/libr.so".to_string(), elf64(&[], &[]));
    let root = elf64(&["libq.so"], &["/opt/app/lib"]);
    let out = start(&["/lib"], &root, &files);
    assert_eq!(out, vec!["libq.so -> opt/app/lib/libq.so", "libr.so -> opt/more/libr.so"]);
}

#[test]
fn metadata_lists_needed_and_rpaths() {
    let links = extract_dependencies(&elf64(&["liba.so", "libb.so"], &["/x"])).unwrap();
    assert_eq!(links.needed, vec!["liba.so", "libb.so"]);
    assert_eq!(links.search_paths, vec!["/x"]);
}

#[test]
fn metadata_of_garbage_is_an_error() {
    assert!(extract_dependencies(&[0u8; 8]).is_err());
    assert!(matches!(extract_dependencies(&bare_header(2)), Err(MetadataError::Malformed)));
}

#[test]
fn root_failures_are_fatal() {
    let lines = vec![plain("/lib")];
    let bad = vec![0u8; 16];
    assert!(matches!(run(&options(), &lines, &bad, &bad), Err(RunError::Ident(_))));
    let missing = vec![ConfigLine { text: "/nope".to_string(), exists: false, nested: Vec::new() }];
    let root = elf64(&[], &[]);
    assert!(matches!(run(&options(), &missing, &root[..16], &root), Err(RunError::Config(_))));
    let header = bare_header(2);
    assert!(matches!(run(&options(), &lines, &header, &header), Err(RunError::Metadata(_))));
}

#[test]
fn paths_join_below_the_root() {
    assert_eq!(relative_to_root("/usr/lib", "libc.so"), "usr/lib/libc.so");
    assert_eq!(relative_to_root("/usr/lib/", "libc.so"), "usr/lib/libc.so");
    assert_eq!(relative_to_root("/", "libc.so"), "libc.so");
    assert_eq!(candidate("/", "/lib", "libc.so"), "/lib/libc.so");
    assert_eq!(candidate("/sysroot", "/lib", "libc.so"), "/sysroot/lib/libc.so");
}
