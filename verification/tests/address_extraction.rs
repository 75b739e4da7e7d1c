use inklings::deployment::extract_contract_address;

/// The same reading, written with the standard library's own line and word
/// splitting.
fn by_lines_and_words(output: &str) -> Option<String> {
    for line in output.lines() {
        if line.contains("Contract") && line.contains("5") {
            if let Some(addr) = line.split_whitespace().find(|s| s.starts_with('5')) {
                return Some(addr.to_string());
            }
        }
    }
    None
}

#[test]
fn test_address_extraction() {
    let output = "Contract 5GrwvaEF5zXb26Fz9rcQpDWS57CtERHpNehXCPcNoHGKutQY deployed";
    let addr = extract_contract_address(output);
    assert!(addr.is_some());
    assert!(addr.unwrap().starts_with('5'));
}

#[test]
fn address_is_the_whole_word() {
    let output = "Contract 5GrwvaEF5zXb26Fz9rcQpDWS57CtERHpNehXCPcNoHGKutQY deployed";
    assert_eq!(
        extract_contract_address(output).as_deref(),
        Some("5GrwvaEF5zXb26Fz9rcQpDWS57CtERHpNehXCPcNoHGKutQY")
    );
}

#[test]
fn address_must_share_the_line_with_the_mention() {
    assert_eq!(extract_contract_address("Contract\n5abc"), None);
    assert_eq!(extract_contract_address("5abc\nContract"), None);
    assert_eq!(extract_contract_address("5abc deployed"), None);
    assert_eq!(extract_contract_address("Contract deployed"), None);
    assert_eq!(extract_contract_address(""), None);
    assert_eq!(extract_contract_address("contract 5abc"), None);
    assert_eq!(extract_contract_address("5abc Contract").as_deref(), Some("5abc"));
    assert_eq!(extract_contract_address("x5 Contract 15 5 55").as_deref(), Some("5"));
}

#[test]
fn first_line_with_an_address_wins() {
    let output = "Building 5 crates\nContract has 5 messages in total\nContract 5Second here\nContract 5Third";
    assert_eq!(extract_contract_address(output).as_deref(), Some("5"));
    let output = "Contract x5 y5\r\nCode hash 5abc\r\nSubContract\t5Fine\r\nContract 5Late";
    assert_eq!(extract_contract_address(output).as_deref(), Some("5Fine"));
}

#[test]
fn agrees_with_the_standard_splitting() {
    let outputs = [
        "",
        "\n",
        "Contract",
        "Contract 5",
        "Contract\u{a0}5a\u{2003}5b",
        "Contract\u{200b}5zero-width-is-no-space",
        "a Contract\u{3000}5x\u{85}5y",
        "Contract 5é\u{1680}tail",
        "Contr act 5no\nContract\r5yes\r\n",
        "Contract \u{b}5vt \u{c}5ff",
        "5 Contract\n5 Contract",
        "  5lead   Contract   ",
        "Contract5glued",
        "ContractContract 5x",
        "Contrac\nt 5split",
        "tcartnoC 5reversed\nContract\n\n5\n Contract 55 5",
        "Contract \u{2028}5ls\u{2029}5ps \u{202f}5nn \u{205f}5mm",
        "Contract 6 7 8\nnothing\n 5 Contract",
    ];
    for output in outputs {
        assert_eq!(extract_contract_address(output), by_lines_and_words(output), "for {:?}", output);
    }
}
