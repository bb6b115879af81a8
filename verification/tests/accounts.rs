//! Customers, API keys and the configuration.

use invoice_service::api_keys::{
    api_key_with, generate_api_key, key_digest, presented_key, seed_demo,
};
use invoice_service::config::{parse_port, Config, EnvVars};
use invoice_service::error::{AppError, DbFailure};
use invoice_service::mock_psp::listening_port;
use invoice_service::models::customer::{CreateCustomerRequest, Customer};
use invoice_service::routes::customers::{create, created, get_by_id};
use invoice_service::text::{contains_char, decimal_text, parse_u64, trim};

fn customer_request(name: &str, email: &str) -> CreateCustomerRequest {
    CreateCustomerRequest {
        name: name.to_string(),
        email: email.to_string(),
    }
}

fn customer() -> Customer {
    Customer {
        id: 7,
        business_id: 8,
        name: "Acme Corp".to_string(),
        email: "billing@acme.com".to_string(),
        created_at: 1,
    }
}

fn db_failure(code: Option<&str>) -> DbFailure {
    DbFailure {
        code: code.map(|c| c.to_string()),
        message: "refused".to_string(),
    }
}

fn vars(
    database_url: Option<&str>,
    port: Option<&str>,
    psp_url: Option<&str>,
    timeout: Option<&str>,
) -> EnvVars {
    EnvVars {
        database_url: database_url.map(|v| v.to_string()),
        port: port.map(|v| v.to_string()),
        psp_url: psp_url.map(|v| v.to_string()),
        psp_timeout_secs: timeout.map(|v| v.to_string()),
    }
}

#[test]
fn customers_are_recorded_tidily() {
    let new = create(&customer_request("  Acme Corp\t", " Billing@ACME.com \n"))
        .ok()
        .unwrap();
    assert_eq!(new.name, "Acme Corp");
    assert_eq!(new.email, "billing@acme.com");
    let new = create(&customer_request("\u{a0}\u{c9}va\u{2003}", "\u{c9}VA@X.FR"))
        .ok()
        .unwrap();
    assert_eq!(new.name, "\u{c9}va");
    assert_eq!(new.email, "\u{e9}va@x.fr");
}

#[test]
fn customers_need_a_name_and_an_email() {
    let cases = [
        ("", "a@b", "name is required"),
        (" \u{3000}", "a@b", "name is required"),
        ("", "", "name is required"),
        ("A", "", "valid email is required"),
        ("A", "   ", "valid email is required"),
        ("A", "a.b", "valid email is required"),
    ];
    for (name, email, expected) in cases {
        let error = create(&customer_request(name, email)).err().unwrap();
        assert_eq!(error.status_code(), 422);
        assert!(matches!(error, AppError::Unprocessable(text) if text == expected));
    }
    // An at sign is all that is asked for.
    assert_eq!(create(&customer_request("A", "@")).ok().unwrap().email, "@");
}

#[test]
fn customers_are_answered() {
    let (code, answer) = created(Ok(customer())).ok().unwrap();
    assert_eq!(code, 201);
    assert_eq!(answer.id, 7);

    let conflict = created(Err(db_failure(Some("23505")))).err().unwrap();
    assert_eq!(conflict.status_code(), 409);
    assert!(matches!(
        conflict,
        AppError::Conflict(text) if text == "A customer with this email already exists"
    ));
    for code in [Some("23503"), Some("2350"), Some("235055"), None] {
        let error = created(Err(db_failure(code))).err().unwrap();
        assert_eq!(error.status_code(), 500);
    }
}

#[test]
fn customers_are_read() {
    assert_eq!(get_by_id(7, Some(customer())).ok().unwrap().id, 7);
    let error = get_by_id(7, None).err().unwrap();
    assert_eq!(error.status_code(), 404);
    assert!(matches!(
        error,
        AppError::NotFound(text)
            if text == "Customer 00000000-0000-0000-0000-000000000007 not found"
    ));
}

#[test]
fn refusals_have_a_status_and_a_code() {
    let text = || "x".to_string();
    let cases = [
        (AppError::Unprocessable(text()), 422, "invalid_request"),
        (AppError::NotFound(text()), 404, "not_found"),
        (AppError::Conflict(text()), 409, "conflict"),
        (AppError::Database(db_failure(None)), 500, "internal_error"),
    ];
    for (error, status, code) in cases {
        assert_eq!(error.status_code(), status);
        assert_eq!(error.code(), code);
    }
}

#[test]
fn failures_are_told_by_their_code() {
    assert!(db_failure(Some("23505")).is_unique_violation());
    assert!(!db_failure(Some("23503")).is_unique_violation());
    assert!(db_failure(Some("23503")).is_foreign_key_violation());
    assert!(!db_failure(None).is_foreign_key_violation());
}

#[test]
fn api_keys_have_their_parts() {
    let random = "a".repeat(48);
    let key = api_key_with(&random);
    assert_eq!(key.raw_key, format!("dk_{random}"));
    assert_eq!(key.key_prefix, "dk_aaaaaaaa");
    assert_eq!(
        key.key_hash,
        "ede314f56fdd0099a958d6205c3bbb9c874e77ee2d087f3fbd70ac208287454b"
    );
}

#[test]
fn api_keys_are_random() {
    let one = generate_api_key();
    let two = generate_api_key();
    assert_eq!(one.raw_key.len(), 51);
    assert!(one.raw_key.starts_with("dk_"));
    assert!(one.raw_key[3..].chars().all(|c| c.is_ascii_alphanumeric()));
    assert_eq!(one.key_prefix, one.raw_key[..11]);
    assert_ne!(one.raw_key, two.raw_key);
    assert_ne!(one.key_hash, two.key_hash);
}

#[test]
fn a_demo_business_is_made_once() {
    assert!(seed_demo(1).is_none());
    assert!(seed_demo(250).is_none());
    let key = seed_demo(0).unwrap();
    assert_eq!(key.key_hash, key_digest(&key.raw_key));
}

#[test]
fn presented_keys_are_found_by_their_digest() {
    let key = generate_api_key();
    let presented = presented_key(&format!("Bearer {}", key.raw_key)).unwrap();
    assert_eq!(presented, key.raw_key);
    assert_eq!(key_digest(&presented), key.key_hash);

    assert_eq!(presented_key("Bearer "), Some(String::new()));
    assert_eq!(presented_key("Bearer"), None);
    assert_eq!(presented_key("bearer dk_x"), None);
    assert_eq!(presented_key("Basic dk_x"), None);
    assert_eq!(presented_key(""), None);
    assert_eq!(
        presented_key("Bearer \u{e9}\u{4e16}"),
        Some("\u{e9}\u{4e16}".to_string())
    );
}

#[test]
fn settings_have_defaults() {
    let config = Config::from_env(vars(Some("postgres://x"), None, None, None)).unwrap();
    assert_eq!(config.database_url, "postgres://x");
    assert_eq!(config.port, 3000);
    assert_eq!(config.psp_url, "http://localhost:4000");
    assert_eq!(config.psp_timeout_secs, 10);
}

#[test]
fn settings_are_read() {
    let config = Config::from_env(vars(
        Some("postgres://x"),
        Some("8080"),
        Some("http://psp"),
        Some("18446744073709551615"),
    ))
    .unwrap();
    assert_eq!(config.port, 8080);
    assert_eq!(config.psp_url, "http://psp");
    assert_eq!(config.psp_timeout_secs, u64::MAX);
}

#[test]
fn wrong_settings_are_refused() {
    let wrong = |v: EnvVars| Config::from_env(v).err().unwrap();
    assert_eq!(
        wrong(vars(None, Some("x"), None, Some("x"))),
        "DATABASE_URL must be set"
    );
    for port in ["x", "", "-1", "65536", " 80", "8_0", "+", "99999999999999999999"] {
        assert_eq!(
            wrong(vars(Some("db"), Some(port), None, Some("x"))),
            "PORT must be a valid u16"
        );
    }
    for timeout in ["x", "", "-1", "1.5", "18446744073709551616"] {
        assert_eq!(
            wrong(vars(Some("db"), None, None, Some(timeout))),
            "PSP_TIMEOUT_SECS must be a number"
        );
    }
}

#[test]
fn ports_are_read() {
    assert_eq!(parse_port("0"), Some(0));
    assert_eq!(parse_port("65535"), Some(65535));
    assert_eq!(parse_port("+4000"), Some(4000));
    assert_eq!(parse_port("0004000"), Some(4000));
    assert_eq!(parse_port("++1"), None);
    assert_eq!(listening_port(None), Some(4000));
    assert_eq!(listening_port(Some("5000".to_string())), Some(5000));
    assert_eq!(listening_port(Some("port".to_string())), None);
}

/// Takes a request for a customer to a table with a unique index on business and email.
fn enrol(table: &mut Vec<Customer>, business_id: u128, name: &str, email: &str) -> u16 {
    let new = match create(&customer_request(name, email)) {
        Ok(new) => new,
        Err(error) => return error.status_code(),
    };
    let taken = table
        .iter()
        .any(|c| c.business_id == business_id && c.email == new.email);
    let row = if taken {
        Err(db_failure(Some("23505")))
    } else {
        Ok(Customer {
            id: table.len() as u128,
            business_id,
            name: new.name,
            email: new.email,
            created_at: 1,
        })
    };
    match created(row) {
        Ok((code, customer)) => {
            table.push(customer);
            code
        }
        Err(error) => error.status_code(),
    }
}

#[test]
fn an_email_is_taken_once_in_a_business() {
    let mut table = Vec::new();
    assert_eq!(enrol(&mut table, 8, "Acme", "billing@acme.com"), 201);
    assert_eq!(enrol(&mut table, 8, "Other", " Billing@ACME.com\n"), 409);
    assert_eq!(enrol(&mut table, 8, "", "billing@acme.com"), 422);
    assert_eq!(table.len(), 1);
    assert_eq!(enrol(&mut table, 9, "Acme", "BILLING@acme.com"), 201);
    assert_eq!(enrol(&mut table, 8, "Acme", "sales@acme.com"), 201);
    assert_eq!(table.len(), 3);
}

#[test]
fn a_customer_is_read_back_by_its_business() {
    let mut table = Vec::new();
    assert_eq!(enrol(&mut table, 8, " Acme ", "Billing@acme.com"), 201);
    let read = |table: &Vec<Customer>, id: u128, business_id: u128| {
        let row = table
            .iter()
            .find(|c| c.id == id && c.business_id == business_id)
            .map(|c| Customer {
                id: c.id,
                business_id: c.business_id,
                name: c.name.clone(),
                email: c.email.clone(),
                created_at: c.created_at,
            });
        get_by_id(id, row)
    };
    let own = read(&table, 0, 8).ok().unwrap();
    assert_eq!(own.name, "Acme");
    assert_eq!(own.email, "billing@acme.com");
    for (id, business_id) in [(0, 9), (1, 8)] {
        let error = read(&table, id, business_id).err().unwrap();
        assert_eq!(error.status_code(), 404);
        assert_eq!(error.code(), "not_found");
    }
}

#[test]
fn white_space_is_trimmed() {
    let texts = [
        "",
        " ",
        "a",
        " a b ",
        "\t\n\u{b}\u{c}\r x \u{85}\u{a0}",
        "\u{1680}\u{2000}\u{200a}\u{2028}\u{2029}\u{202f}\u{205f}\u{3000}",
        "\u{3000}\u{4e16}\u{3000}\u{754c}\u{3000}",
        "\u{200b}zero width stays\u{feff}",
        "\u{1c}\u{1f}controls stay\u{8}",
    ];
    for text in texts {
        assert_eq!(trim(text), text.trim());
    }
    for code in 0..=0x10ffff_u32 {
        if let Some(c) = char::from_u32(code) {
            if c.is_whitespace() || code < 0x3100 {
                let text = format!("{c}x{c}");
                assert_eq!(trim(&text), text.trim());
            }
        }
    }
}

#[test]
fn unsigned_numbers_are_read() {
    let texts = [
        "",
        "+",
        "-",
        "-0",
        "0",
        "+0",
        "007",
        "++1",
        "1+",
        "1 ",
        "1_000",
        "0x10",
        "\u{661}",
        "18446744073709551615",
        "18446744073709551616",
        "18446744073709551620",
        "99999999999999999999999999999999",
        "00000000000000000000000000000005",
    ];
    for text in texts {
        assert_eq!(parse_u64(text), text.parse::<u64>().ok());
    }
}

#[test]
fn numbers_are_written_in_decimal() {
    for n in [0, 7, 10, -1, 1_700_000_000, i64::MAX, i64::MIN] {
        assert_eq!(decimal_text(n), format!("{n}"));
        assert_eq!(decimal_text(n).parse::<i64>(), Ok(n));
    }
}

#[test]
fn characters_are_found() {
    assert!(contains_char("a@b", '@'));
    assert!(!contains_char("ab", '@'));
    assert!(!contains_char("", '@'));
}
