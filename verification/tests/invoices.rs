//! Making, reading and moving invoices.

use invoice_service::error::{AppError, DbFailure};
use invoice_service::models::customer::Customer;
use invoice_service::models::invoice::{
    CreateInvoiceRequest, CreateLineItem, Invoice, LineItem, ListInvoicesQuery,
};
use invoice_service::routes::invoices::{
    amounts_fit, begin_invoice, check_lines, create, fetch_invoice, get_by_id, list,
    mark_uncollectible, no_invoice, open_invoice, void_invoice, CreateReply, CreateStep,
    InvoiceSelection,
};

fn line(description: &str, quantity: i32, unit_amount_cents: i64) -> CreateLineItem {
    CreateLineItem {
        description: description.to_string(),
        quantity,
        unit_amount_cents,
    }
}

fn request(line_items: Vec<CreateLineItem>) -> CreateInvoiceRequest {
    CreateInvoiceRequest {
        customer_id: 0x0123_4567_89ab_cdef_0123_4567_89ab_cdef,
        due_date: 739_616,
        line_items,
    }
}

fn invoice(state: &str) -> Invoice {
    Invoice {
        id: 7,
        business_id: 8,
        customer_id: 9,
        state: state.to_string(),
        total_cents: 25_000,
        due_date: 739_616,
        created_at: 1,
        updated_at: 1,
    }
}

fn customer(business_id: u128) -> Customer {
    Customer {
        id: 0x0123_4567_89ab_cdef_0123_4567_89ab_cdef,
        business_id,
        name: "Acme Corp".to_string(),
        email: "billing@acme.com".to_string(),
        created_at: 1,
    }
}

/// Starts to make an invoice, up to where it is recorded.
fn begin_for_own_customer(lines: Vec<CreateLineItem>) -> CreateStep {
    let step = create(
        begin_invoice(8, request(lines)),
        CreateReply::Customer {
            found: Some(customer(8)),
        },
    );
    assert!(matches!(step, CreateStep::InsertInvoice { .. }));
    step
}

fn message(error: &AppError) -> String {
    match error {
        AppError::Unprocessable(text) => format!("422 {text}"),
        AppError::NotFound(text) => format!("404 {text}"),
        AppError::Conflict(text) => format!("409 {text}"),
        AppError::Database(failure) => format!("500 {}", failure.message),
    }
}

fn ended(step: CreateStep) -> Result<u16, String> {
    match step {
        CreateStep::Finished { result } => match result {
            Ok(created) => Ok(created.status_code),
            Err(error) => {
                assert_eq!(
                    message(&error).split(' ').next().unwrap(),
                    error.status_code().to_string()
                );
                Err(message(&error))
            }
        },
        _ => panic!("there is more to do"),
    }
}

#[test]
fn totals_are_worked_out() {
    let step = begin_invoice(
        8,
        request(vec![
            line("Widget Pro", 3, 5000),
            line("Support plan", 1, 10_000),
        ]),
    );
    match step {
        CreateStep::FindCustomer { new } => {
            assert_eq!(new.business_id, 8);
            assert_eq!(new.customer_id, 0x0123_4567_89ab_cdef_0123_4567_89ab_cdef);
            assert_eq!(new.due_date, 739_616);
            assert_eq!(new.total_cents, 25_000);
            assert_eq!(new.lines.len(), 2);
            assert_eq!(new.lines[0].description, "Widget Pro");
            assert_eq!(new.lines[0].quantity, 3);
            assert_eq!(new.lines[0].unit_amount_cents, 5000);
            assert_eq!(new.lines[0].amount_cents, 15_000);
            assert_eq!(new.lines[1].description, "Support plan");
            assert_eq!(new.lines[1].amount_cents, 10_000);
        }
        _ => panic!("the invoice was refused"),
    }
}

#[test]
fn every_line_is_recorded_in_order() {
    let mut step = begin_invoice(
        8,
        request(vec![line("a", 1, 1), line("b", 2, 10), line("c", 3, 100)]),
    );
    let mut recorded = Vec::new();
    let mut events = Vec::new();
    let created = loop {
        let reply = match &step {
            CreateStep::FindCustomer { new } => CreateReply::Customer {
                found: Some(customer(new.business_id)),
            },
            CreateStep::InsertInvoice { new } => {
                assert_eq!(new.total_cents, 321);
                CreateReply::InsertedInvoice {
                    invoice: invoice("draft"),
                }
            }
            CreateStep::InsertLine { inserted, .. } => {
                assert_eq!(inserted.len(), recorded.len());
                let next = step.line().unwrap();
                recorded.push(next.description.clone());
                CreateReply::InsertedLine {
                    item: LineItem {
                        id: recorded.len() as u128,
                        invoice_id: 7,
                        description: next.description.clone(),
                        quantity: next.quantity,
                        unit_amount_cents: next.unit_amount_cents,
                        amount_cents: next.amount_cents,
                    },
                }
            }
            CreateStep::Commit { .. } => {
                assert!(step.line().is_none());
                CreateReply::Done
            }
            CreateStep::Announce { event, .. } => {
                events.push(event.event_type.clone());
                CreateReply::Done
            }
            CreateStep::Finished { .. } => break step,
        };
        step = create(step, reply);
    };
    assert_eq!(recorded, vec!["a", "b", "c"]);
    assert_eq!(events, vec!["invoice.created"]);
    match created {
        CreateStep::Finished { result: Ok(created) } => {
            assert_eq!(created.status_code, 201);
            assert_eq!(created.body.invoice.id, 7);
            let amounts: Vec<i64> = created
                .body
                .line_items
                .iter()
                .map(|l| l.amount_cents)
                .collect();
            assert_eq!(amounts, vec![1, 20, 300]);
        }
        _ => panic!("the invoice was refused"),
    }
}

#[test]
fn unacceptable_lines_are_refused() {
    let cases = vec![
        (vec![], "422 line_items cannot be empty"),
        (vec![line("a", 0, 1)], "422 quantity must be > 0"),
        (vec![line("a", -1, 1)], "422 quantity must be > 0"),
        (vec![line("a", 1, 0)], "422 unit_amount_cents must be > 0"),
        (vec![line("a", 1, -5)], "422 unit_amount_cents must be > 0"),
        (vec![line("a", 0, 0)], "422 quantity must be > 0"),
        (
            vec![line("a", 1, 1), line("b", 1, 0), line("c", 0, 1)],
            "422 unit_amount_cents must be > 0",
        ),
    ];
    for (lines, expected) in cases {
        assert_eq!(message(&check_lines(&lines).unwrap()), expected);
        assert!(amounts_fit(&lines));
        assert_eq!(
            ended(begin_invoice(8, request(lines))),
            Err(expected.to_string())
        );
    }
    assert!(check_lines(&vec![line("a", 1, 1)]).is_none());
}

#[test]
fn totals_that_cannot_be_held_are_told() {
    assert!(amounts_fit(&vec![line("a", 1, i64::MAX)]));
    assert!(!amounts_fit(&vec![line("a", 2, i64::MAX)]));
    assert!(!amounts_fit(&vec![line("a", 1, i64::MAX), line("b", 1, 1)]));
    assert!(!amounts_fit(&vec![line("a", i32::MAX, i64::MAX)]));
    assert!(amounts_fit(&vec![line("a", i32::MAX, 4_294_967_298)]));
    assert!(!amounts_fit(&vec![line("a", i32::MAX, 4_294_967_299)]));
}

#[test]
fn an_unknown_customer_is_not_found() {
    let expected = "404 Customer 01234567-89ab-cdef-0123-456789abcdef not found".to_string();
    let refused = create(
        begin_invoice(8, request(vec![line("a", 1, 1)])),
        CreateReply::Customer { found: None },
    );
    assert_eq!(ended(refused), Err(expected.clone()));

    let step = begin_for_own_customer(vec![line("a", 1, 1)]);
    let refused = create(
        step,
        CreateReply::DbFailed {
            failure: DbFailure {
                code: Some("23503".to_string()),
                message: "fk".to_string(),
            },
        },
    );
    assert_eq!(ended(refused), Err(expected));
}

#[test]
fn a_customer_of_another_business_is_not_found() {
    let refused = create(
        begin_invoice(8, request(vec![line("a", 1, 1)])),
        CreateReply::Customer {
            found: Some(customer(9)),
        },
    );
    assert_eq!(
        ended(refused),
        Err("404 Customer 01234567-89ab-cdef-0123-456789abcdef not found".to_string())
    );
}

#[test]
fn other_failures_of_the_database_are_handed_on() {
    let failure = |code: &str| DbFailure {
        code: Some(code.to_string()),
        message: "lost".to_string(),
    };
    let step = begin_for_own_customer(vec![line("a", 1, 1)]);
    let refused = create(
        step,
        CreateReply::DbFailed {
            failure: failure("57P01"),
        },
    );
    assert_eq!(ended(refused), Err("500 lost".to_string()));

    let refused = create(
        begin_invoice(8, request(vec![line("a", 1, 1)])),
        CreateReply::DbFailed {
            failure: failure("23503"),
        },
    );
    assert_eq!(ended(refused), Err("500 lost".to_string()));

    // A missing customer shows when the invoice is recorded, not when a line is.
    let step = begin_for_own_customer(vec![line("a", 1, 1)]);
    let step = create(
        step,
        CreateReply::InsertedInvoice {
            invoice: invoice("draft"),
        },
    );
    let refused = create(
        step,
        CreateReply::DbFailed {
            failure: failure("23503"),
        },
    );
    assert_eq!(ended(refused), Err("500 lost".to_string()));
}

#[test]
fn invoices_are_read() {
    let found = get_by_id(7, Some(invoice("open")), Vec::new());
    match found {
        Ok(response) => {
            assert_eq!(response.invoice.id, 7);
            assert!(response.line_items.is_empty());
        }
        Err(_) => panic!("the invoice is there"),
    }
    match get_by_id(7, None, Vec::new()) {
        Ok(_) => panic!("the invoice is not there"),
        Err(error) => assert_eq!(
            message(&error),
            "404 Invoice 00000000-0000-0000-0000-000000000007 not found"
        ),
    }
    assert_eq!(
        fetch_invoice(7, Some(invoice("void"))).ok().unwrap().state,
        "void"
    );
    assert_eq!(
        message(&fetch_invoice(8, None).err().unwrap()),
        message(&no_invoice(8))
    );
}

#[test]
fn an_invoice_is_read_back_with_its_lines() {
    let mut step = begin_for_own_customer(vec![line("a", 1, 1), line("b", 2, 10)]);
    step = create(
        step,
        CreateReply::InsertedInvoice {
            invoice: Invoice {
                total_cents: 21,
                ..invoice("draft")
            },
        },
    );
    // The ids of the lines need not ascend as they are recorded.
    let mut table: Vec<LineItem> = Vec::new();
    for id in [5, 3] {
        let next = step.line().unwrap();
        let item = || LineItem {
            id,
            invoice_id: 7,
            description: next.description.clone(),
            quantity: next.quantity,
            unit_amount_cents: next.unit_amount_cents,
            amount_cents: next.amount_cents,
        };
        table.push(item());
        let reply = CreateReply::InsertedLine { item: item() };
        step = create(step, reply);
    }
    step = create(step, CreateReply::Done);
    step = create(step, CreateReply::Done);
    let answer = match step {
        CreateStep::Finished { result: Ok(answer) } => answer,
        _ => panic!("the invoice was refused"),
    };
    let answered: Vec<u128> = answer.body.line_items.iter().map(|l| l.id).collect();
    assert_eq!(answered, vec![5, 3]);

    table.sort_by_key(|l| l.id);
    let read = get_by_id(7, Some(answer.body.invoice), table).ok().unwrap();
    let ids: Vec<u128> = read.line_items.iter().map(|l| l.id).collect();
    assert_eq!(ids, vec![3, 5]);
    let total: i64 = read.line_items.iter().map(|l| l.amount_cents).sum();
    assert_eq!(total, read.invoice.total_cents);
}

#[test]
fn lists_are_of_one_business_and_one_state() {
    match list(8, ListInvoicesQuery { state: None }) {
        InvoiceSelection::Every { business_id } => assert_eq!(business_id, 8),
        InvoiceSelection::InState { .. } => panic!("no state was named"),
    }
    let query = ListInvoicesQuery {
        state: Some("open".to_string()),
    };
    match list(8, query) {
        InvoiceSelection::InState { business_id, state } => {
            assert_eq!(business_id, 8);
            assert_eq!(state, "open");
        }
        InvoiceSelection::Every { .. } => panic!("a state was named"),
    }
}

#[test]
fn invoices_move_as_the_state_machine_says() {
    let states = ["draft", "open", "paid", "void", "uncollectible"];
    for state in states {
        let locked = Some(invoice(state));
        let opened = open_invoice(7, &locked);
        let voided = void_invoice(7, &locked);
        let given_up = mark_uncollectible(7, &locked);

        if state == "draft" {
            assert_eq!(opened.ok().unwrap(), "open");
        } else {
            assert_eq!(
                message(&opened.err().unwrap()),
                format!("422 Cannot open an invoice in state '{state}'")
            );
        }
        if state == "draft" || state == "open" {
            assert_eq!(voided.ok().unwrap(), "void");
        } else {
            assert_eq!(
                message(&voided.err().unwrap()),
                format!("422 Cannot void an invoice in state '{state}'")
            );
        }
        if state == "open" {
            assert_eq!(given_up.ok().unwrap(), "uncollectible");
        } else {
            assert_eq!(
                message(&given_up.err().unwrap()),
                format!(
                    "422 Only open invoices can be marked uncollectible (current state: '{state}')"
                )
            );
        }
    }
}

#[test]
fn invoices_that_are_not_there_do_not_move() {
    let expected = "404 Invoice 00000000-0000-0000-0000-000000000007 not found";
    assert_eq!(message(&open_invoice(7, &None).err().unwrap()), expected);
    assert_eq!(message(&void_invoice(7, &None).err().unwrap()), expected);
    assert_eq!(
        message(&mark_uncollectible(7, &None).err().unwrap()),
        expected
    );
}
