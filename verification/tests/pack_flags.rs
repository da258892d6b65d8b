use infiniloom_cli::options::pack_switches;

#[test]
fn full_implies_symbols_unless_turned_off() {
    let s = pack_switches(false, false, true, false, false, false, false, false, false);
    assert!(s.symbols && s.full);
    let s = pack_switches(false, true, true, true, false, false, false, false, false);
    assert!(!s.symbols && !s.full);
    let s = pack_switches(false, true, false, false, false, false, false, false, false);
    assert!(s.symbols && !s.full);
}

#[test]
fn negative_flags_turn_switches_off() {
    let s = pack_switches(true, false, false, false, true, true, true, false, true);
    assert!(!s.respect_gitignore && !s.use_default_ignores);
    assert!(!s.directory_structure && !s.file_summary && !s.line_numbers);
    let s = pack_switches(false, false, false, false, false, false, false, true, true);
    assert!(s.line_numbers && s.respect_gitignore && s.directory_structure && s.file_summary);
}
