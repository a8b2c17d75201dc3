use disasm::args::DisasmArg;
use disasm::args::MachineMode;
use disasm::disasm::DecodedInstruction;
use disasm::disasm::Disassembler;
use disasm::disasm::Printer;

fn record(addr: u64, bytes: &[u8], text: &str) -> DecodedInstruction {
    DecodedInstruction {
        addr,
        bytes: bytes.to_vec(),
        text: text.to_string(),
    }
}

fn driver(mode: MachineMode, verbosity: u8) -> Disassembler {
    let arg = DisasmArg {
        mode,
        address: 0,
        detail: false,
        hilight: false,
        verbosity,
        assembly: Vec::new(),
    };
    Disassembler::new(&arg).unwrap()
}

#[test]
fn new_takes_over_the_configuration() {
    let dm = driver(MachineMode::X86, 3);
    assert!(matches!(dm.mode, MachineMode::X86));
    assert_eq!(dm.verbosity, 3);
}

#[test]
fn empty_run_yields_one_bare_newline() {
    let dm = driver(MachineMode::Amd64, 2);
    let out = dm.disasm(&Vec::new()).unwrap();
    assert_eq!(out, "\n");
    assert_eq!(out.lines().filter(|l| !l.is_empty()).count(), 0);
}

#[test]
fn tier0_output_streams_plain_text() {
    let dm = driver(MachineMode::Amd64, 0);
    let records = vec![record(0, &[0x90], "nop"), record(1, &[0xc3], "ret")];
    assert_eq!(dm.disasm(&records).unwrap(), "nop\nret\n");
}

#[test]
fn three_records_render_aligned_tier2() {
    let dm = driver(MachineMode::Amd64, 2);
    let records = vec![
        record(0x1000, &[0x90], "nop"),
        record(0x1001, &[0x90], "nop"),
        record(0x1002, &[0xc3], "ret"),
    ];
    let out = dm.disasm(&records).unwrap();
    let lines: Vec<&str> = out.lines().collect();
    assert_eq!(lines.len(), 3);
    assert!(lines[0].starts_with("0x1000"));
    assert!(lines[1].starts_with("0x1001"));
    assert!(lines[2].starts_with("0x1002"));
    let fields0: Vec<&str> = lines[0].split_whitespace().collect();
    let fields1: Vec<&str> = lines[1].split_whitespace().collect();
    let fields2: Vec<&str> = lines[2].split_whitespace().collect();
    assert_eq!(fields0, vec!["0x1000", "90", "nop"]);
    assert_eq!(fields1, vec!["0x1001", "90", "nop"]);
    assert_eq!(fields2, vec!["0x1002", "c3", "ret"]);
    // The column padding is eight spaces past the widest cell.
    assert_eq!(out, "0x1000        90        nop\n0x1001        90        nop\n0x1002        c3        ret\n");
}

#[test]
fn alignment_pads_to_the_widest_field() {
    let dm = driver(MachineMode::Amd64, 1);
    let records = vec![record(0x0, &[0x90], "nop"), record(0x1000, &[0xc3], "ret")];
    let out = dm.disasm(&records).unwrap();
    // Address column width is six ("0x1000"); the short address gets three
    // extra spaces, both cells get the eight padding spaces.
    assert_eq!(out, "0x0           nop\n0x1000        ret\n");
    let lines: Vec<&str> = out.lines().collect();
    assert_eq!(
        lines[0].find("nop").unwrap(),
        lines[1].find("ret").unwrap()
    );
}

#[test]
fn no_record_is_dropped_and_order_is_kept() {
    let dm = driver(MachineMode::Amd64, 1);
    let records: Vec<DecodedInstruction> = (0..16u64)
        .map(|i| record(0x400000 + i, &[0x90], &format!("insn{}", i)))
        .collect();
    let out = dm.disasm(&records).unwrap();
    let lines: Vec<&str> = out.lines().collect();
    assert_eq!(lines.len(), 16);
    for (i, line) in lines.iter().enumerate() {
        assert!(line.contains(&format!("insn{}", i)));
    }
}

#[test]
fn printer_queue_then_show() {
    let mut p = Printer::new(2);
    p.queue(&record(0x1000, &[0x0f, 0x05], "syscall"));
    p.queue(&record(0x1002, &[0x90], "nop"));
    let out = p.show().unwrap();
    let lines: Vec<&str> = out.lines().collect();
    assert_eq!(lines.len(), 2);
    assert_eq!(
        lines[0].split_whitespace().collect::<Vec<_>>(),
        vec!["0x1000", "0f", "05", "syscall"]
    );
    assert_eq!(
        lines[1].split_whitespace().collect::<Vec<_>>(),
        vec!["0x1002", "90", "nop"]
    );
}

#[test]
fn printer_show_on_empty_queue() {
    let p = Printer::new(0);
    assert_eq!(p.show().unwrap(), "\n");
}

#[test]
fn verbosity_tiers_add_fields_end_to_end() {
    let records = vec![record(0x1000, &[0x90], "nop")];
    let out0 = driver(MachineMode::Amd64, 0).disasm(&records).unwrap();
    let out1 = driver(MachineMode::Amd64, 1).disasm(&records).unwrap();
    let out2 = driver(MachineMode::Amd64, 2).disasm(&records).unwrap();
    assert_eq!(out0, "nop\n");
    // Each tier keeps every field of the tier below and adds one in front.
    assert!(out1.contains("nop"));
    assert!(out1.starts_with("0x1000"));
    assert!(out2.contains("nop"));
    assert!(out2.starts_with("0x1000"));
    assert!(out2.contains("90"));
    assert!(!out1.contains("90 "));
}
