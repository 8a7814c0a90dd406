use mailbackup_core::config::ProviderType;
use mailbackup_core::csv_import::{
    build_import_report, detect_delimiter, detect_provider_and_server, generate_csv_template,
    parse_accounts_csv,
};

#[test]
fn test_csv_bulk_import_parser() {
    // 1. Template generation
    let template = generate_csv_template();
    assert!(template.contains("email,password,name,server,port,username"));

    // 2. Standard CSV with various providers and auto-detection
    let csv_data = "\
email,password,name,server,port,username,retention,schedule
admin@example.com,Secret123,Work Admin,mail.example.com,993,admin,90,0 2 * * *
alice@gmail.com,app-pass-key,Alice Personal,,,alice@gmail.com,,
bob@outlook.com,ms-pass-xyz,Bob Outlook,,,bob@outlook.com,,
charlie@customdomain.io,pass123,,,,charlie,,
";
    let report = parse_accounts_csv(csv_data);
    assert_eq!(report.errors.len(), 0);
    assert_eq!(report.valid_accounts.len(), 4);

    let acc0 = &report.valid_accounts[0];
    assert_eq!(acc0.email, "admin@example.com");
    assert_eq!(acc0.name, "Work Admin");
    assert_eq!(acc0.imap_server, "mail.example.com");
    assert_eq!(acc0.imap_port, 993);
    assert_eq!(acc0.username, "admin");
    assert_eq!(acc0.retention_days, Some(90));
    assert_eq!(acc0.schedule.as_deref(), Some("0 2 * * *"));

    let acc1 = &report.valid_accounts[1];
    assert_eq!(acc1.email, "alice@gmail.com");
    assert_eq!(acc1.provider, ProviderType::Gmail);
    assert_eq!(acc1.imap_server, "imap.gmail.com");
    assert_eq!(acc1.imap_port, 993);

    let acc2 = &report.valid_accounts[2];
    assert_eq!(acc2.email, "bob@outlook.com");
    assert_eq!(acc2.provider, ProviderType::Outlook);
    assert_eq!(acc2.imap_server, "outlook.office365.com");

    let acc3 = &report.valid_accounts[3];
    assert_eq!(acc3.email, "charlie@customdomain.io");
    assert_eq!(acc3.name, "Charlie");
    assert_eq!(acc3.imap_server, "mail.customdomain.io");

    // 3. Semicolon delimiter (European Excel)
    let semi_data = "Email;Password;Display Name;Server;Port\nuser1@extron.lv;pwd1;User One;mail.extron.lv;993\n";
    let semi_report = parse_accounts_csv(semi_data);
    assert_eq!(semi_report.errors.len(), 0);
    assert_eq!(semi_report.valid_accounts.len(), 1);
    assert_eq!(semi_report.valid_accounts[0].email, "user1@extron.lv");
    assert_eq!(semi_report.valid_accounts[0].password, "pwd1");

    // 4. Invalid rows & validation error handling
    let bad_data = "\
email,password,name
good@test.com,pass1,Good User
missing_pwd@test.com,,No Pass User
not-an-email,pass2,Bad Email
,pass3,Empty Email
";
    let bad_report = parse_accounts_csv(bad_data);
    assert_eq!(bad_report.valid_accounts.len(), 1);
    assert_eq!(bad_report.errors.len(), 3);
    assert!(bad_report.errors.iter().any(|e| e.error.contains("Missing password")));
    assert!(bad_report.errors.iter().any(|e| e.error.contains("Invalid email format")));
    assert!(bad_report.errors.iter().any(|e| e.error.contains("Missing required 'email'")));

    // 5. Convert to AccountConfig
    let cfg = bad_report.valid_accounts[0].to_account_config();
    assert_eq!(cfg.id, "goodtest_com");
    assert_eq!(cfg.email, "good@test.com");
    assert!(cfg.enabled);
}

#[test]
fn csv_blank_input_gives_empty_report() {
    let r = parse_accounts_csv("   \n\t  \n");
    assert!(r.valid_accounts.is_empty());
    assert!(r.errors.is_empty());
    assert_eq!(r.total_rows, 0);
}

#[test]
fn csv_delimiter_detection() {
    assert_eq!(detect_delimiter("# comment\n\na;b;c\n"), b';');
    assert_eq!(detect_delimiter("a\tb\tc"), b'\t');
    assert_eq!(detect_delimiter("a,b;c"), b',');
    assert_eq!(detect_delimiter(""), b',');
    assert_eq!(detect_delimiter("a;b,c,d"), b',');
}

#[test]
fn csv_headerless_rows_use_positional_columns() {
    let r = parse_accounts_csv("x@yahoo.com,pw\n# a@b.c,comment\ny@me.com,pw2,Why,,1143\n");
    assert_eq!(r.total_rows, 3);
    assert_eq!(r.valid_accounts.len(), 2);
    assert!(r.errors.is_empty());
    assert_eq!(r.valid_accounts[0].name, "X");
    assert_eq!(r.valid_accounts[0].provider, ProviderType::Yahoo);
    assert_eq!(r.valid_accounts[0].imap_server, "imap.mail.yahoo.com");
    assert_eq!(r.valid_accounts[0].username, "x@yahoo.com");
    assert_eq!(r.valid_accounts[0].id, "xyahoo_com");
    assert_eq!(r.valid_accounts[1].name, "Why");
    assert_eq!(r.valid_accounts[1].provider, ProviderType::ICloud);
    assert_eq!(r.valid_accounts[1].imap_port, 1143);
}

#[test]
fn csv_error_rows_keep_line_and_raw_content() {
    let r = parse_accounts_csv("email;password\nnobody@;pw\n");
    assert_eq!(r.errors.len(), 1);
    assert_eq!(r.errors[0].line, 2);
    assert_eq!(r.errors[0].raw_content, "nobody@;pw");
    assert_eq!(r.errors[0].error, "Invalid email format: 'nobody@'");
}

#[test]
fn csv_report_from_reader_rows() {
    let rows = vec![
        (vec![], Some("bad quote".to_string())),
        (vec!["EMAIL".to_string(), "pwd".to_string(), "host".to_string()], None),
        (vec!["a@x.org".to_string(), "s".to_string(), "imap.gmail.com".to_string()], None),
    ];
    let r = build_import_report(&rows, b',');
    assert_eq!(r.errors.len(), 1);
    assert_eq!(r.errors[0].line, 1);
    assert_eq!(r.errors[0].error, "CSV parsing error: bad quote");
    assert_eq!(r.total_rows, 1);
    assert_eq!(r.valid_accounts[0].provider, ProviderType::Gmail);
    assert_eq!(r.valid_accounts[0].imap_server, "imap.gmail.com");
}

#[test]
fn provider_detection_by_server_and_domain() {
    let (p, s, port) = detect_provider_and_server("a@B.example", Some("  Mail.ICLOUD.com "), Some(143));
    assert_eq!(p, ProviderType::ICloud);
    assert_eq!(s, "Mail.ICLOUD.com");
    assert_eq!(port, 143);
    let (p, s, port) = detect_provider_and_server("a@Hotmail.com", Some("   "), None);
    assert_eq!(p, ProviderType::Outlook);
    assert_eq!(s, "outlook.office365.com");
    assert_eq!(port, 993);
    let (p, s, _) = detect_provider_and_server("no-domain", None, None);
    assert_eq!(p, ProviderType::GenericImap);
    assert_eq!(s, "localhost");
    let (_, s, _) = detect_provider_and_server("u@Corp.IO", None, None);
    assert_eq!(s, "mail.corp.io");
}

#[test]
fn csv_template_imports_cleanly() {
    let report = parse_accounts_csv(&generate_csv_template());
    assert_eq!(report.total_rows, 3);
    assert_eq!(report.valid_accounts.len(), 3);
    assert!(report.errors.is_empty());
    assert_eq!(report.valid_accounts[1].imap_server, "imap.gmail.com");
    assert_eq!(report.valid_accounts[1].username, "john.doe@gmail.com");
}
