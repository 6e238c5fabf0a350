//! The tick store's line protocol: the commands a client sends, the record
//! format of a delta, and how replies are framed.

use vstd::prelude::*;

use crate::delta::{BID, TRADE};

verus! {

/// The text of one decimal digit.
pub open spec fn digit(d: nat) -> Seq<char> {
    if d == 0 {
        "0"@
    } else if d == 1 {
        "1"@
    } else if d == 2 {
        "2"@
    } else if d == 3 {
        "3"@
    } else if d == 4 {
        "4"@
    } else if d == 5 {
        "5"@
    } else if d == 6 {
        "6"@
    } else if d == 7 {
        "7"@
    } else if d == 8 {
        "8"@
    } else {
        "9"@
    }
}

/// `n` in decimal, without leading zeros.
pub open spec fn decimal(n: nat) -> Seq<char>
    decreases n,
{
    if n < 10 {
        digit(n)
    } else {
        decimal(n / 10) + digit(n % 10)
    }
}

fn digit_text(d: u32) -> (r: &'static str)
    requires
        d < 10,
    ensures
        r@ == digit(d as nat),
{
    match d {
        0 => "0",
        1 => "1",
        2 => "2",
        3 => "3",
        4 => "4",
        5 => "5",
        6 => "6",
        7 => "7",
        8 => "8",
        _ => "9",
    }
}

/// Writes `n` in decimal.
pub fn decimal_text(n: u32) -> (r: String)
    ensures
        r@ == decimal(n as nat),
    decreases n,
{
    if n < 10 {
        String::from_str(digit_text(n))
    } else {
        let mut s = decimal_text(n / 10);
        s.append(digit_text(n % 10));
        s
    }
}

/// `t` for true, `f` for false.
pub open spec fn flag(b: bool) -> Seq<char> {
    if b {
        "t"@
    } else {
        "f"@
    }
}

/// A record as the tick store reads it:
/// `"{ts}, {seq}, {is_trade}, {is_bid}, {price}, {size};"`, the two flags
/// taken from the event byte.
pub open spec fn record_text(
    ts: Seq<char>,
    seq: u32,
    event: u8,
    price: Seq<char>,
    size: Seq<char>,
) -> Seq<char> {
    ts + ", "@ + decimal(seq as nat) + ", "@ + flag(event & TRADE == TRADE) + ", "@ + flag(
        event & BID == BID,
    ) + ", "@ + price + ", "@ + size + ";"@
}

fn flag_text(b: bool) -> (r: &'static str)
    ensures
        r@ == flag(b),
{
    if b {
        "t"
    } else {
        "f"
    }
}

/// Writes the record of a delta, given its timestamp (seconds, three
/// decimals), price and size already written out.
pub fn record(ts: &str, seq: u32, event: u8, price: &str, size: &str) -> (r: String)
    ensures
        r@ == record_text(ts@, seq, event, price@, size@),
{
    let mut r = String::from_str(ts);
    r.append(", ");
    let n = decimal_text(seq);
    r.append(n.as_str());
    r.append(", ");
    r.append(flag_text(event & TRADE == TRADE));
    r.append(", ");
    r.append(flag_text(event & BID == BID));
    r.append(", ");
    r.append(price);
    r.append(", ");
    r.append(size);
    r.append(";");
    r
}

/// The database that holds `symbol` of `exchange`: `{exchange}_{symbol}`.
pub open spec fn database_text(exchange: Seq<char>, symbol: Seq<char>) -> Seq<char> {
    exchange + "_"@ + symbol
}

/// Names the database that holds `symbol` of `exchange`.
pub fn database_name(exchange: &str, symbol: &str) -> (r: String)
    ensures
        r@ == database_text(exchange@, symbol@),
{
    let mut r = String::from_str(exchange);
    r.append("_");
    r.append(symbol);
    r
}

/// Commands that take no argument.
#[derive(Clone, Copy, Debug, PartialEq, Eq, Structural)]
pub enum Command {
    /// Help text
    Help,
    /// Liveness check
    Ping,
    /// Server information
    Info,
    /// Server performance figures
    Perf,
    /// Write the current database to disk
    Flush,
    /// Write every database to disk
    FlushAll,
    /// Drop the current database's entries from memory
    Clear,
    /// Drop every database's entries from memory
    ClearAll,
    /// Count entries of the current database
    Count,
    /// Count entries of every database
    CountAll,
}

pub open spec fn command_text(c: Command) -> Seq<char> {
    match c {
        Command::Help => "HELP"@,
        Command::Ping => "PING"@,
        Command::Info => "INFO"@,
        Command::Perf => "PERF"@,
        Command::Flush => "FLUSH"@,
        Command::FlushAll => "FLUSH ALL"@,
        Command::Clear => "CLEAR"@,
        Command::ClearAll => "CLEAR ALL"@,
        Command::Count => "COUNT"@,
        Command::CountAll => "COUNT ALL"@,
    }
}

impl Command {
    /// The command's wire token.
    pub fn text(&self) -> (r: &'static str)
        ensures
            r@ == command_text(*self),
    {
        match self {
            Command::Help => "HELP",
            Command::Ping => "PING",
            Command::Info => "INFO",
            Command::Perf => "PERF",
            Command::Flush => "FLUSH",
            Command::FlushAll => "FLUSH ALL",
            Command::Clear => "CLEAR",
            Command::ClearAll => "CLEAR ALL",
            Command::Count => "COUNT",
            Command::CountAll => "COUNT ALL",
        }
    }
}

/// Asks whether database `db` exists: `EXISTS {db}`.
pub fn exists_command(db: &str) -> (r: String)
    ensures
        r@ == "EXISTS "@ + db@,
{
    let mut r = String::from_str("EXISTS ");
    r.append(db);
    r
}

/// Creates database `db`: `CREATE {db}`.
pub fn create_command(db: &str) -> (r: String)
    ensures
        r@ == "CREATE "@ + db@,
{
    let mut r = String::from_str("CREATE ");
    r.append(db);
    r
}

/// Inserts a record into the current database: `INSERT {record}`.
pub fn insert_command(record: &str) -> (r: String)
    ensures
        r@ == "INSERT "@ + record@,
{
    let mut r = String::from_str("INSERT ");
    r.append(record);
    r
}

pub open spec fn insert_into_text(record: Seq<char>, db: Seq<char>) -> Seq<char> {
    "INSERT "@ + record + " INTO "@ + db
}

/// Inserts a record into database `db`: `INSERT {record} INTO {db}`.
pub fn insert_into_command(record: &str, db: &str) -> (r: String)
    ensures
        r@ == insert_into_text(record@, db@),
{
    let mut r = String::from_str("INSERT ");
    r.append(record);
    r.append(" INTO ");
    r.append(db);
    r
}

/// The lines of a bulk insertion: `BULKADD` (or `BULKADD INTO {db}`), the
/// records, then the terminator `DDAKLUB`.
pub fn bulk_add_commands(db: Option<&str>, records: &Vec<String>) -> (r: Vec<String>)
    requires
        records@.len() + 2 <= usize::MAX,
    ensures
        r@.len() == records@.len() + 2,
        r@[0]@ == match db {
            Some(d) => "BULKADD INTO "@ + d@,
            None => "BULKADD"@,
        },
        forall|i: int| 0 <= i < records@.len() ==> #[trigger] r@[i + 1]@ == records@[i]@,
        r@[records@.len() as int + 1]@ == "DDAKLUB"@,
{
    let mut r: Vec<String> = Vec::new();
    let head = match db {
        Some(d) => {
            let mut h = String::from_str("BULKADD INTO ");
            h.append(d);
            h
        },
        None => String::from_str("BULKADD"),
    };
    r.push(head);
    let mut i: usize = 0;
    while i < records.len()
        invariant
            i <= records@.len(),
            r@.len() == i + 1,
            r@[0]@ == match db {
                Some(d) => "BULKADD INTO "@ + d@,
                None => "BULKADD"@,
            },
            forall|j: int| 0 <= j < i ==> #[trigger] r@[j + 1]@ == records@[j]@,
        decreases records@.len() - i,
    {
        let line = records[i].clone();
        r.push(line);
        i += 1;
    }
    r.push(String::from_str("DDAKLUB"));
    r
}

/// A command as sent: the command followed by a newline.
pub fn frame(command: &str) -> (r: String)
    ensures
        r@ == command@ + "\n"@,
{
    let mut r = String::from_str(command);
    r.append("\n");
    r
}

/// Where the first reply line ends: the position of the first newline byte,
/// if one has arrived.
pub fn line_end(buf: &Vec<u8>) -> (r: Option<usize>)
    ensures
        match r {
            Some(i) => i < buf@.len() && buf@[i as int] == 10 && forall|j: int|
                0 <= j < i ==> buf@[j] != 10,
            None => forall|j: int| 0 <= j < buf@.len() ==> buf@[j] != 10,
        },
{
    let mut i: usize = 0;
    while i < buf.len()
        invariant
            i <= buf@.len(),
            forall|j: int| 0 <= j < i ==> buf@[j] != 10,
        decreases buf@.len() - i,
    {
        if buf[i] == 10 {
            return Some(i);
        }
        i += 1;
    }
    None
}

/// Whether an `EXISTS` reply says the database exists: it starts with `1`.
pub fn exists_reply(reply: &str) -> (r: bool)
    ensures
        r == (reply@.len() > 0 && reply@[0] == '1'),
{
    if reply.unicode_len() == 0 {
        false
    } else {
        reply.get_char(0) == '1'
    }
}

} // verus!
