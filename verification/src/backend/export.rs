use vstd::prelude::*;
use crate::backend::models::{BeneficiaryChange, ComplianceReport, EventType, FundMovement, Vault, VaultEvent, VaultStatus};
use crate::backend::text::decimal_chars;

verus! {

// ---------------------------------------------------------------------------
// Formatting of numbers, times and CSV records.

/// The decimal digits of `n`, after a minus sign when it is negative.
pub open spec fn signed_decimal_chars(n: int) -> Seq<char> {
    if n < 0 {
        seq!['-'] + decimal_chars((-n) as nat)
    } else {
        decimal_chars(n as nat)
    }
}

/// The decimal representation of `n`.
/// Calls `i128::to_string`, whose `Display` output is the number in base ten,
/// with a minus sign when it is negative and no padding or separators.
#[verifier::external_body]
pub fn signed_decimal_string(n: i128) -> (r: String)
    ensures
        r@ == signed_decimal_chars(n as int),
{
    n.to_string()
}

/// The RFC 3339 text of a Unix time in seconds, or `None` where chrono cannot
/// represent the time.
pub uninterp spec fn rfc3339_text(secs: i64) -> Option<Seq<char>>;

/// A Unix time in seconds as RFC 3339 text.
/// Calls `chrono::DateTime::from_timestamp`, which has no value outside
/// chrono's range, and `DateTime::to_rfc3339` on the value; the outcome is
/// named `rfc3339_text`, a function of the seconds alone.
#[verifier::external_body]
fn rfc3339_string(secs: i64) -> (r: Option<String>)
    ensures
        match r {
            Some(s) => rfc3339_text(secs) == Some(s@),
            None => rfc3339_text(secs) is None,
        },
{
    match chrono::DateTime::from_timestamp(secs, 0) {
        Some(d) => Some(d.to_rfc3339()),
        None => None,
    }
}

/// The text chrono's `Display` gives a UTC time of `secs` Unix seconds, or
/// `None` where chrono cannot represent the time.
pub uninterp spec fn utc_text(secs: i64) -> Option<Seq<char>>;

/// A Unix time in seconds as chrono displays a UTC time.
/// Calls `chrono::DateTime::from_timestamp`, which has no value outside
/// chrono's range, and `to_string` on the value; the outcome is named
/// `utc_text`, a function of the seconds alone.
#[verifier::external_body]
fn utc_string(secs: i64) -> (r: Option<String>)
    ensures
        match r {
            Some(s) => utc_text(secs) == Some(s@),
            None => utc_text(secs) is None,
        },
{
    match chrono::DateTime::from_timestamp(secs, 0) {
        Some(d) => Some(d.to_string()),
        None => None,
    }
}

/// The views of a list of strings.
pub open spec fn string_views(v: Seq<String>) -> Seq<Seq<char>> {
    v.map_values(|s: String| s@)
}

/// The line that the `csv` crate's writer produces for one record, or `None`
/// where it reports an error.
pub uninterp spec fn csv_record(fields: Seq<Seq<char>>) -> Option<Seq<char>>;

/// One CSV record as text.
/// Calls `csv::Writer::write_record` on a writer into memory with the
/// crate's default settings, then takes the written bytes back as a string;
/// the outcome is named `csv_record`, a function of the fields alone.
#[verifier::external_body]
fn csv_line(fields: &Vec<String>) -> (r: Option<String>)
    ensures
        match r {
            Some(s) => csv_record(string_views(fields@)) == Some(s@),
            None => csv_record(string_views(fields@)) is None,
        },
{
    let mut writer = csv::Writer::from_writer(Vec::new());
    if writer.write_record(fields).is_err() {
        return None;
    }
    match writer.into_inner() {
        Ok(bytes) => String::from_utf8(bytes).ok(),
        Err(_) => None,
    }
}

/// The CSV text of a list of records, or `None` if one of them cannot be
/// written.
pub open spec fn csv_text(rows: Seq<Seq<Seq<char>>>) -> Option<Seq<char>>
    decreases rows.len(),
{
    if rows.len() == 0 {
        Some(Seq::empty())
    } else {
        match (csv_text(rows.drop_last()), csv_record(rows.last())) {
            (Some(a), Some(b)) => Some(a + b),
            _ => None,
        }
    }
}

// ---------------------------------------------------------------------------
// Export formats.

/// The formats a vault export can be written in.
#[derive(Clone, Copy, Debug, PartialEq, Eq, Structural)]
pub enum ExportFormat {
    Json,
    Csv,
}

/// The formats a compliance report can be written in.
#[derive(Clone, Copy, Debug, PartialEq, Eq, Structural)]
pub enum ReportFormat {
    Json,
    Pdf,
}

/// Reads the name of a vault export format.
pub fn export_format(format: &str) -> (r: Result<ExportFormat, String>)
    ensures
        format@ == "json"@ ==> r == Ok::<ExportFormat, String>(ExportFormat::Json),
        format@ == "csv"@ ==> r == Ok::<ExportFormat, String>(ExportFormat::Csv),
        format@ != "json"@ && format@ != "csv"@ ==> (r matches Err(e) && e@ == "Unsupported format"@),
{
    proof {
        reveal_strlit("json");
        reveal_strlit("csv");
        assert("json"@.len() == 4 && "csv"@.len() == 3);
    }
    let f = format.to_owned();
    if f == String::from_str("json") {
        Ok(ExportFormat::Json)
    } else if f == String::from_str("csv") {
        Ok(ExportFormat::Csv)
    } else {
        Err(String::from_str("Unsupported format"))
    }
}

/// Reads the name of a compliance report format.
pub fn report_format(format: &str) -> (r: Result<ReportFormat, String>)
    ensures
        format@ == "json"@ ==> r == Ok::<ReportFormat, String>(ReportFormat::Json),
        format@ == "pdf"@ ==> r == Ok::<ReportFormat, String>(ReportFormat::Pdf),
        format@ != "json"@ && format@ != "pdf"@ ==> (r matches Err(e) && e@ == "Unsupported format"@),
{
    proof {
        reveal_strlit("json");
        reveal_strlit("pdf");
        assert("json"@.len() == 4 && "pdf"@.len() == 3);
    }
    let f = format.to_owned();
    if f == String::from_str("json") {
        Ok(ReportFormat::Json)
    } else if f == String::from_str("pdf") {
        Ok(ReportFormat::Pdf)
    } else {
        Err(String::from_str("Unsupported format"))
    }
}

// ---------------------------------------------------------------------------
// CSV export of a vault.

/// The name a vault status is shown under.
pub open spec fn status_name(s: VaultStatus) -> Seq<char> {
    match s {
        VaultStatus::Active => "Active"@,
        VaultStatus::Expired => "Expired"@,
        VaultStatus::Released => "Released"@,
        VaultStatus::Paused => "Paused"@,
    }
}

/// The name an event type is shown under.
pub open spec fn event_type_name(t: EventType) -> Seq<char> {
    match t {
        EventType::CheckIn => "CheckIn"@,
        EventType::TtlUpdate => "TtlUpdate"@,
        EventType::StatusChange => "StatusChange"@,
        EventType::Deposit => "Deposit"@,
        EventType::Withdrawal => "Withdrawal"@,
        EventType::Release => "Release"@,
    }
}

fn status_label(s: VaultStatus) -> (r: String)
    ensures
        r@ == status_name(s),
{
    match s {
        VaultStatus::Active => String::from_str("Active"),
        VaultStatus::Expired => String::from_str("Expired"),
        VaultStatus::Released => String::from_str("Released"),
        VaultStatus::Paused => String::from_str("Paused"),
    }
}

fn event_type_label(t: EventType) -> (r: String)
    ensures
        r@ == event_type_name(t),
{
    match t {
        EventType::CheckIn => String::from_str("CheckIn"),
        EventType::TtlUpdate => String::from_str("TtlUpdate"),
        EventType::StatusChange => String::from_str("StatusChange"),
        EventType::Deposit => String::from_str("Deposit"),
        EventType::Withdrawal => String::from_str("Withdrawal"),
        EventType::Release => String::from_str("Release"),
    }
}

/// The header row of the vault part.
pub open spec fn vault_header() -> Seq<Seq<char>> {
    seq!["Type"@, "ID"@, "Owner"@, "Beneficiary"@, "Balance"@, "Status"@, "Created"@]
}

/// The row describing the vault, created at the time shown as `created`.
pub open spec fn vault_row(v: Vault, created: Seq<char>) -> Seq<Seq<char>> {
    seq!["Vault"@, v.id@, v.owner@, v.beneficiary@, signed_decimal_chars(v.balance as int), status_name(v.status), created]
}

/// The empty row between the two parts.
pub open spec fn blank_row() -> Seq<Seq<char>> {
    seq![""@, ""@, ""@, ""@, ""@, ""@, ""@]
}

/// The header row of the event part.
pub open spec fn event_header() -> Seq<Seq<char>> {
    seq!["Event"@, "Type"@, "Timestamp"@, "Data"@, ""@, ""@, ""@]
}

/// The row of one event, at the time shown as `stamp`, with its data as `data`.
pub open spec fn event_row(e: VaultEvent, stamp: Seq<char>, data: Seq<char>) -> Seq<Seq<char>> {
    seq!["Event"@, event_type_name(e.event_type), stamp, data, ""@, ""@, ""@]
}

/// The rows of the first events, or `None` if the time of one of them cannot
/// be shown.
pub open spec fn event_rows(history: Seq<VaultEvent>, data: Seq<Seq<char>>) -> Option<Seq<Seq<Seq<char>>>>
    decreases history.len(),
{
    if history.len() == 0 {
        Some(Seq::empty())
    } else {
        let n = history.len() - 1;
        match (event_rows(history.drop_last(), data), rfc3339_text(history.last().timestamp)) {
            (Some(rows), Some(stamp)) => Some(rows.push(event_row(history.last(), stamp, data[n]))),
            _ => None,
        }
    }
}

/// The rows of a vault's CSV export, or `None` if a time cannot be shown.
pub open spec fn export_rows(v: Vault, history: Seq<VaultEvent>, data: Seq<Seq<char>>) -> Option<Seq<Seq<Seq<char>>>> {
    match (rfc3339_text(v.created_at), event_rows(history, data)) {
        (Some(created), Some(rows)) => Some(seq![vault_header(), vault_row(v, created), blank_row(), event_header()] + rows),
        _ => None,
    }
}

proof fn lemma_csv_text_push(rows: Seq<Seq<Seq<char>>>, row: Seq<Seq<char>>)
    ensures
        csv_text(rows.push(row)) == (match (csv_text(rows), csv_record(row)) {
            (Some(a), Some(b)) => Some(a + b),
            _ => None::<Seq<char>>,
        }),
{
    assert(rows.push(row).drop_last() =~= rows);
}

proof fn lemma_csv_text_stuck(rows: Seq<Seq<Seq<char>>>, more: Seq<Seq<Seq<char>>>)
    requires
        csv_text(rows) is None,
    ensures
        csv_text(rows + more) is None,
    decreases more.len(),
{
    if more.len() > 0 {
        lemma_csv_text_stuck(rows, more.drop_last());
        assert((rows + more).drop_last() =~= rows + more.drop_last());
    }
}

/// The views of a table of records.
pub open spec fn table_view(t: Seq<Vec<String>>) -> Seq<Seq<Seq<char>>> {
    t.map_values(|r: Vec<String>| string_views(r@))
}

/// The CSV export of a vault and its history: a header, the vault's row, an
/// empty row, a header and one row per event, whose data column is the
/// matching entry of `data`.
pub fn export_to_csv(vault: &Vault, history: &Vec<VaultEvent>, data: &Vec<String>) -> (r: Result<String, String>)
    requires
        data@.len() == history@.len(),
    ensures
        match export_rows(*vault, history@, string_views(data@)) {
            None => r matches Err(e) && e@ == "Invalid timestamp"@,
            Some(rows) => match csv_text(rows) {
                Some(t) => r matches Ok(s) && s@ == t,
                None => r matches Err(e) && e@ == "CSV write failed"@,
            },
        },
{
    let ghost dv = string_views(data@);
    proof {
        reveal_strlit("");
        assert(""@ =~= Seq::<char>::empty());
    }
    let created = match rfc3339_string(vault.created_at) {
        Some(c) => c,
        None => return Err(String::from_str("Invalid timestamp")),
    };
    let ghost fixed = seq![vault_header(), vault_row(*vault, created@), blank_row(), event_header()];
    let mut table: Vec<Vec<String>> = Vec::new();
    table.push(vec![
        String::from_str("Type"), String::from_str("ID"), String::from_str("Owner"), String::from_str("Beneficiary"),
        String::from_str("Balance"), String::from_str("Status"), String::from_str("Created"),
    ]);
    table.push(vec![
        String::from_str("Vault"), vault.id.clone(), vault.owner.clone(), vault.beneficiary.clone(),
        signed_decimal_string(vault.balance), status_label(vault.status), created,
    ]);
    table.push(vec![
        String::new(), String::new(), String::new(), String::new(), String::new(), String::new(), String::new(),
    ]);
    table.push(vec![
        String::from_str("Event"), String::from_str("Type"), String::from_str("Timestamp"), String::from_str("Data"),
        String::new(), String::new(), String::new(),
    ]);
    assert(table_view(table@) =~= fixed + Seq::<Seq<Seq<char>>>::empty()) by {
        assert(string_views(table@[0]@) =~= vault_header());
        assert(string_views(table@[1]@) =~= vault_row(*vault, created@));
        assert(string_views(table@[2]@) =~= blank_row());
        assert(string_views(table@[3]@) =~= event_header());
    }
    let mut i: usize = 0;
    while i < history.len()
        invariant
            i <= history@.len(),
            data@.len() == history@.len(),
            dv == string_views(data@),
            event_rows(history@.subrange(0, i as int), dv) matches Some(rows)
                && table_view(table@) == fixed + rows,
        decreases history@.len() - i,
    {
        let ghost pre = history@.subrange(0, i as int);
        let ghost prev = table_view(table@);
        proof {
            reveal_strlit("");
            assert(""@ =~= Seq::<char>::empty());
        }
        assert(dv[i as int] == data@[i as int]@);
        assert(history@.subrange(0, i + 1).drop_last() =~= pre);
        assert(history@.subrange(0, i + 1).last() == history@[i as int]);
        let stamp = match rfc3339_string(history[i].timestamp) {
            Some(s) => s,
            None => {
                proof { lemma_event_rows_stuck(history@, dv, i as int + 1); }
                return Err(String::from_str("Invalid timestamp"));
            },
        };
        let row = vec![
            String::from_str("Event"), event_type_label(history[i].event_type), stamp, data[i].clone(),
            String::new(), String::new(), String::new(),
        ];
        assert(string_views(row@) =~= event_row(history@[i as int], stamp@, dv[i as int]));
        table.push(row);
        assert(table_view(table@) =~= prev.push(string_views(row@)));
        i = i + 1;
    }
    assert(history@.subrange(0, history@.len() as int) =~= history@);
    let ghost rows = table_view(table@);
    assert(export_rows(*vault, history@, dv) == Some(rows));

    let mut out = String::new();
    let mut k: usize = 0;
    assert(rows.take(0) =~= Seq::<Seq<Seq<char>>>::empty());
    while k < table.len()
        invariant
            k <= table@.len(),
            rows == table_view(table@),
            export_rows(*vault, history@, string_views(data@)) == Some(rows),
            csv_text(rows.take(k as int)) == Some(out@),
        decreases table@.len() - k,
    {
        let ghost before = out@;
        assert(rows[k as int] == string_views(table@[k as int]@));
        proof {
            lemma_csv_text_push(rows.take(k as int), rows[k as int]);
            assert(rows.take(k as int).push(rows[k as int]) =~= rows.take(k + 1));
        }
        match csv_line(&table[k]) {
            Some(line) => out.append(line.as_str()),
            None => {
                proof { lemma_csv_prefix_fails(rows, k + 1); }
                return Err(String::from_str("CSV write failed"));
            },
        }
        k = k + 1;
    }
    assert(rows.take(rows.len() as int) =~= rows);
    Ok(out)
}

/// The CSV text of all rows exists exactly when that of every prefix does.
proof fn lemma_csv_prefix_fails(rows: Seq<Seq<Seq<char>>>, n: int)
    requires
        0 <= n <= rows.len(),
        csv_text(rows.take(n)) is None,
    ensures
        csv_text(rows) is None,
{
    lemma_csv_text_stuck(rows.take(n), rows.skip(n));
    assert(rows.take(n) + rows.skip(n) =~= rows);
}

proof fn lemma_event_rows_stuck(history: Seq<VaultEvent>, data: Seq<Seq<char>>, n: int)
    requires
        0 <= n <= history.len(),
        event_rows(history.subrange(0, n), data) is None,
    ensures
        event_rows(history, data) is None,
    decreases history.len() - n,
{
    if n < history.len() {
        assert(history.subrange(0, n + 1).drop_last() =~= history.subrange(0, n));
        lemma_event_rows_stuck(history, data, n + 1);
    } else {
        assert(history.subrange(0, n) =~= history);
    }
}

// ---------------------------------------------------------------------------
// Text export of a compliance report.

/// The line of one fund movement at the time shown as `stamp`.
pub open spec fn movement_line(m: FundMovement, stamp: Seq<char>) -> Seq<char> {
    stamp + " - "@ + m.movement_type@ + " "@ + signed_decimal_chars(m.amount as int) + "\n"@
}

/// The lines of a list of fund movements, or `None` if the time of one of
/// them cannot be shown.
pub open spec fn movement_lines(ms: Seq<FundMovement>) -> Option<Seq<char>>
    decreases ms.len(),
{
    if ms.len() == 0 {
        Some(Seq::empty())
    } else {
        match (movement_lines(ms.drop_last()), utc_text(ms.last().timestamp)) {
            (Some(t), Some(stamp)) => Some(t + movement_line(ms.last(), stamp)),
            _ => None,
        }
    }
}

/// The line of one beneficiary change at the time shown as `stamp`.
pub open spec fn change_line(c: BeneficiaryChange, stamp: Seq<char>) -> Seq<char> {
    stamp + " - "@ + c.old_beneficiary@ + " -> "@ + c.new_beneficiary@ + "\n"@
}

/// The lines of a list of beneficiary changes, or `None` if the time of one
/// of them cannot be shown.
pub open spec fn change_lines(cs: Seq<BeneficiaryChange>) -> Option<Seq<char>>
    decreases cs.len(),
{
    if cs.len() == 0 {
        Some(Seq::empty())
    } else {
        match (change_lines(cs.drop_last()), utc_text(cs.last().timestamp)) {
            (Some(t), Some(stamp)) => Some(t + change_line(cs.last(), stamp)),
            _ => None,
        }
    }
}

/// The summary at the head of a report's text, generated at the time shown
/// as `generated`.
pub open spec fn report_head(r: ComplianceReport, generated: Seq<char>) -> Seq<char> {
    "COMPLIANCE REPORT\n"@ + "Generated: "@ + generated + "\n\n"@
        + "Vault ID: "@ + r.vault_id@ + "\n"@
        + "Owner: "@ + r.owner@ + "\n"@
        + "Beneficiary: "@ + r.beneficiary@ + "\n"@
        + "Current Balance: "@ + signed_decimal_chars(r.current_balance as int) + "\n"@
        + "Total Deposits: "@ + signed_decimal_chars(r.total_deposits as int) + "\n"@
        + "Total Withdrawals: "@ + signed_decimal_chars(r.total_withdrawals as int) + "\n\n"@
        + "FUND MOVEMENTS:\n"@
}

/// The plain-text export of a compliance report, or `None` if a time in it
/// cannot be shown.
pub open spec fn report_text(r: ComplianceReport) -> Option<Seq<char>> {
    match (utc_text(r.report_generated_at), movement_lines(r.fund_movements@), change_lines(r.beneficiary_changes@)) {
        (Some(g), Some(ml), Some(cl)) => Some(report_head(r, g) + ml + "\nBENEFICIARY CHANGES:\n"@ + cl),
        _ => None,
    }
}

proof fn lemma_movement_lines_stuck(ms: Seq<FundMovement>, n: int)
    requires
        0 <= n <= ms.len(),
        movement_lines(ms.subrange(0, n)) is None,
    ensures
        movement_lines(ms) is None,
    decreases ms.len() - n,
{
    if n < ms.len() {
        assert(ms.subrange(0, n + 1).drop_last() =~= ms.subrange(0, n));
        lemma_movement_lines_stuck(ms, n + 1);
    } else {
        assert(ms.subrange(0, n) =~= ms);
    }
}

proof fn lemma_change_lines_stuck(cs: Seq<BeneficiaryChange>, n: int)
    requires
        0 <= n <= cs.len(),
        change_lines(cs.subrange(0, n)) is None,
    ensures
        change_lines(cs) is None,
    decreases cs.len() - n,
{
    if n < cs.len() {
        assert(cs.subrange(0, n + 1).drop_last() =~= cs.subrange(0, n));
        lemma_change_lines_stuck(cs, n + 1);
    } else {
        assert(cs.subrange(0, n) =~= cs);
    }
}

/// Appends the lines of the fund movements to `out`.
fn append_movements(out: &mut String, ms: &Vec<FundMovement>) -> (ok: bool)
    ensures
        match movement_lines(ms@) {
            Some(t) => ok && final(out)@ == old(out)@ + t,
            None => !ok,
        },
{
    let ghost head = out@;
    let mut i: usize = 0;
    assert(ms@.subrange(0, 0) =~= Seq::<FundMovement>::empty());
    assert(head + Seq::<char>::empty() =~= head);
    while i < ms.len()
        invariant
            i <= ms@.len(),
            movement_lines(ms@.subrange(0, i as int)) matches Some(t) && out@ == head + t,
        decreases ms@.len() - i,
    {
        let ghost pre = ms@.subrange(0, i as int);
        let ghost t = movement_lines(pre)->0;
        assert(ms@.subrange(0, i + 1).drop_last() =~= pre);
        assert(ms@.subrange(0, i + 1).last() == ms@[i as int]);
        let stamp = match utc_string(ms[i].timestamp) {
            Some(s) => s,
            None => {
                proof { lemma_movement_lines_stuck(ms@, i as int + 1); }
                return false;
            },
        };
        out.append(stamp.as_str());
        out.append(" - ");
        out.append(ms[i].movement_type.as_str());
        out.append(" ");
        let amount = signed_decimal_string(ms[i].amount);
        out.append(amount.as_str());
        out.append("\n");
        assert(out@ =~= head + (t + movement_line(ms@[i as int], stamp@)));
        i = i + 1;
    }
    assert(ms@.subrange(0, ms@.len() as int) =~= ms@);
    true
}

/// Appends the lines of the beneficiary changes to `out`.
fn append_changes(out: &mut String, cs: &Vec<BeneficiaryChange>) -> (ok: bool)
    ensures
        match change_lines(cs@) {
            Some(t) => ok && final(out)@ == old(out)@ + t,
            None => !ok,
        },
{
    let ghost head = out@;
    let mut i: usize = 0;
    assert(cs@.subrange(0, 0) =~= Seq::<BeneficiaryChange>::empty());
    assert(head + Seq::<char>::empty() =~= head);
    while i < cs.len()
        invariant
            i <= cs@.len(),
            change_lines(cs@.subrange(0, i as int)) matches Some(t) && out@ == head + t,
        decreases cs@.len() - i,
    {
        let ghost pre = cs@.subrange(0, i as int);
        let ghost t = change_lines(pre)->0;
        assert(cs@.subrange(0, i + 1).drop_last() =~= pre);
        assert(cs@.subrange(0, i + 1).last() == cs@[i as int]);
        let stamp = match utc_string(cs[i].timestamp) {
            Some(s) => s,
            None => {
                proof { lemma_change_lines_stuck(cs@, i as int + 1); }
                return false;
            },
        };
        out.append(stamp.as_str());
        out.append(" - ");
        out.append(cs[i].old_beneficiary.as_str());
        out.append(" -> ");
        out.append(cs[i].new_beneficiary.as_str());
        out.append("\n");
        assert(out@ =~= head + (t + change_line(cs@[i as int], stamp@)));
        i = i + 1;
    }
    assert(cs@.subrange(0, cs@.len() as int) =~= cs@);
    true
}

/// The plain-text export of a compliance report: a summary, then one line
/// per fund movement and one per beneficiary change.
pub fn compliance_report_text(report: &ComplianceReport) -> (r: Result<String, String>)
    ensures
        match report_text(*report) {
            Some(t) => r matches Ok(s) && s@ == t,
            None => r matches Err(e) && e@ == "Invalid timestamp"@,
        },
{
    let generated = match utc_string(report.report_generated_at) {
        Some(g) => g,
        None => return Err(String::from_str("Invalid timestamp")),
    };
    let mut out = String::from_str("COMPLIANCE REPORT\n");
    out.append("Generated: ");
    out.append(generated.as_str());
    out.append("\n\n");
    out.append("Vault ID: ");
    out.append(report.vault_id.as_str());
    out.append("\n");
    out.append("Owner: ");
    out.append(report.owner.as_str());
    out.append("\n");
    out.append("Beneficiary: ");
    out.append(report.beneficiary.as_str());
    out.append("\n");
    let balance = signed_decimal_string(report.current_balance);
    out.append("Current Balance: ");
    out.append(balance.as_str());
    out.append("\n");
    let deposits = signed_decimal_string(report.total_deposits);
    out.append("Total Deposits: ");
    out.append(deposits.as_str());
    out.append("\n");
    let withdrawals = signed_decimal_string(report.total_withdrawals);
    out.append("Total Withdrawals: ");
    out.append(withdrawals.as_str());
    out.append("\n\n");
    out.append("FUND MOVEMENTS:\n");
    assert(out@ == report_head(*report, generated@));
    if !append_movements(&mut out, &report.fund_movements) {
        return Err(String::from_str("Invalid timestamp"));
    }
    out.append("\nBENEFICIARY CHANGES:\n");
    if !append_changes(&mut out, &report.beneficiary_changes) {
        return Err(String::from_str("Invalid timestamp"));
    }
    Ok(out)
}

} // verus!
