//! Facts taken from text: the user's query and the output of a finished step.
use vstd::prelude::*;
use crate::facts::FactTable;
use crate::text::{contains_seq, contains_str, str_eq};
use vstd::string::StringExecFns;

verus! {

/// A subnet literal such as `192.168.1.0/24`.
pub const CIDR_PATTERN: &'static str = "\\b((?:[0-9]{1,3}\\.){3}[0-9]{1,3}/\\d{1,2})\\b";

/// A dotted-quad address literal such as `10.0.0.5`.
pub const IP_PATTERN: &'static str = "\\b((?:[0-9]{1,3}\\.){3}[0-9]{1,3})\\b";

/// The gateway line of the Windows address report; the address is group one.
pub const WINDOWS_GATEWAY_PATTERN: &'static str = "Default Gateway.*: ([0-9]+\\.[0-9]+\\.[0-9]+\\.[0-9]+)";

/// The default route of the Linux routing table; the address is group one.
pub const LINUX_GATEWAY_PATTERN: &'static str = "default via ([0-9]+\\.[0-9]+\\.[0-9]+\\.[0-9]+)";

/// The gateway line of the macOS route report; the address is group one.
pub const MACOS_GATEWAY_PATTERN: &'static str = "gateway: ([0-9]+\\.[0-9]+\\.[0-9]+\\.[0-9]+)";

/// The text of the leftmost match of regular expression `pattern` in `text`.
pub uninterp spec fn first_match(pattern: Seq<char>, text: Seq<char>) -> Option<Seq<char>>;

/// The text of group one in the leftmost match of `pattern` in `text`.
pub uninterp spec fn first_capture(pattern: Seq<char>, text: Seq<char>) -> Option<Seq<char>>;

/// The lower-case form of `s`.
pub uninterp spec fn lower_of(s: Seq<char>) -> Seq<char>;

/// The character sequence of an optional string.
pub open spec fn opt_view(o: Option<String>) -> Option<Seq<char>> {
    match o {
        Some(s) => Some(s@),
        None => None,
    }
}

/// Relies on regex::Regex::new and Regex::find: the text of the leftmost
/// match, which depends on the pattern and the text alone.
#[verifier::external_body]
fn regex_find(pattern: &str, text: &str) -> (r: Option<String>)
    ensures
        opt_view(r) == first_match(pattern@, text@),
{
    regex::Regex::new(pattern).ok().and_then(|re| re.find(text).map(|m| m.as_str().to_string()))
}

/// Relies on regex::Regex::new, Regex::captures and Captures::get: the text
/// of group one of the leftmost match, a function of the pattern and text.
#[verifier::external_body]
fn regex_capture(pattern: &str, text: &str) -> (r: Option<String>)
    ensures
        opt_view(r) == first_capture(pattern@, text@),
{
    regex::Regex::new(pattern).ok().and_then(
        |re| re.captures(text).and_then(|c| c.get(1)).map(|m| m.as_str().to_string()),
    )
}

/// Relies on str::to_lowercase: the result depends on the characters alone,
/// and an empty string stays empty.
#[verifier::external_body]
fn lowercase(s: &str) -> (r: String)
    ensures
        r@ == lower_of(s@),
        s@.len() == 0 ==> r@.len() == 0,
{
    s.to_lowercase()
}

/// The facts that a query seeds: a subnet literal under `subnet_cidr` if
/// there is one; otherwise an address literal under `target_ip`; otherwise none.
pub open spec fn seeded(cidr: Option<Seq<char>>, ip: Option<Seq<char>>) -> Map<Seq<char>, Seq<char>> {
    match cidr {
        Some(c) => map!["subnet_cidr"@ => c],
        None => match ip {
            Some(a) => map!["target_ip"@ => a],
            None => Map::empty(),
        },
    }
}

/// Replaces the facts by those a query seeds, given the subnet literal and
/// the address literal found in it.
pub fn seed_facts(facts: &mut FactTable, cidr: Option<String>, ip: Option<String>)
    ensures
        final(facts)@ == seeded(opt_view(cidr), opt_view(ip)),
{
    facts.clear();
    match cidr {
        Some(c) => {
            facts.insert(String::from_str("subnet_cidr"), c);
            assert(facts@ =~= seeded(opt_view(Some(c)), opt_view(ip)));
        },
        None => match ip {
            Some(a) => {
                facts.insert(String::from_str("target_ip"), a);
                assert(facts@ =~= seeded(None, opt_view(Some(a))));
            },
            None => {},
        },
    }
}

/// Forgets all facts and seeds the table from the user's query: a subnet
/// literal, looked for first, or else an address literal.
pub fn seed_from_query(facts: &mut FactTable, query: &str)
    ensures
        final(facts)@ == seeded(
            first_match(CIDR_PATTERN@, query@),
            first_match(IP_PATTERN@, query@),
        ),
{
    let cidr = regex_find(CIDR_PATTERN, query);
    let ip = match cidr {
        Some(_) => None,
        None => regex_find(IP_PATTERN, query),
    };
    seed_facts(facts, cidr, ip);
}

/// A subnet literal takes priority: where one is found, `subnet_cidr` is
/// seeded and `target_ip` is not, whatever address literal is also present.
pub proof fn lemma_cidr_takes_priority(cidr: Seq<char>, ip: Option<Seq<char>>)
    ensures
        seeded(Some(cidr), ip).contains_key("subnet_cidr"@),
        seeded(Some(cidr), ip)["subnet_cidr"@] == cidr,
        !seeded(Some(cidr), ip).contains_key("target_ip"@),
{
    reveal_strlit("subnet_cidr");
    reveal_strlit("target_ip");
    assert("subnet_cidr"@ != "target_ip"@) by {
        assert("subnet_cidr"@[0] != "target_ip"@[0]);
    }
}

/// `s` without one trailing carriage return.
pub open spec fn strip_cr(s: Seq<char>) -> Seq<char> {
    if s.len() > 0 && s.last() == '\r' {
        s.drop_last()
    } else {
        s
    }
}

/// The lines of `s` appended to `acc`, with `cur` the line being read. A line
/// feed ends a line, and a carriage return just before it is dropped; an
/// unterminated last line counts if it is not empty.
pub open spec fn lines_from(s: Seq<char>, cur: Seq<char>, acc: Seq<Seq<char>>) -> Seq<Seq<char>>
    decreases s.len(),
{
    if s.len() == 0 {
        if cur.len() > 0 {
            acc.push(cur)
        } else {
            acc
        }
    } else if s[0] == '\n' {
        lines_from(s.drop_first(), seq![], acc.push(strip_cr(cur)))
    } else {
        lines_from(s.drop_first(), cur.push(s[0]), acc)
    }
}

/// The lines of `s`.
pub open spec fn lines_of(s: Seq<char>) -> Seq<Seq<char>> {
    lines_from(s, seq![], seq![])
}

/// The first capture of `pattern` among the lines from index `i` on.
pub open spec fn first_capture_in_lines(pattern: Seq<char>, lines: Seq<Seq<char>>, i: int) -> Option<
    Seq<char>,
>
    decreases lines.len() - i,
{
    if i < 0 || i >= lines.len() {
        None
    } else {
        match first_capture(pattern, lines[i]) {
            Some(m) => Some(m),
            None => first_capture_in_lines(pattern, lines, i + 1),
        }
    }
}

/// The gateway address that a step's output shows: on Windows the first line
/// with a gateway entry; elsewhere a Linux default route, or else a macOS
/// gateway line.
pub open spec fn gateway_in(output: Seq<char>, windows: bool) -> Option<Seq<char>> {
    if windows {
        first_capture_in_lines(WINDOWS_GATEWAY_PATTERN@, lines_of(output), 0)
    } else {
        match first_capture(LINUX_GATEWAY_PATTERN@, output) {
            Some(m) => Some(m),
            None => first_capture(MACOS_GATEWAY_PATTERN@, output),
        }
    }
}

/// Whether a lower-case purpose asks for the default gateway or router.
pub open spec fn asks_for_gateway(purpose: Seq<char>) -> bool {
    contains_seq(purpose, "find default gateway"@) || contains_seq(purpose, "find router"@)
}

/// The facts after a found gateway is recorded: any address but `0.0.0.0`
/// is written under `default_gateway`; nothing else changes.
pub open spec fn with_gateway(facts: Map<Seq<char>, Seq<char>>, found: Option<Seq<char>>) -> Map<
    Seq<char>,
    Seq<char>,
> {
    match found {
        Some(ip) => if ip != "0.0.0.0"@ {
            facts.insert("default_gateway"@, ip)
        } else {
            facts
        },
        None => facts,
    }
}

/// An address of `0.0.0.0` counts as none: reading an output whose gateway
/// is that address writes no fact, whatever the step asked for.
pub proof fn lemma_zero_gateway_writes_nothing(
    facts: Map<Seq<char>, Seq<char>>,
    purpose: Option<Seq<char>>,
    output: Seq<char>,
    windows: bool,
)
    requires
        gateway_in(output, windows) == Some("0.0.0.0"@),
    ensures
        after_output(facts, purpose, output, windows) == facts,
{
}

/// Splits `s` into its lines.
pub fn split_lines(s: &str) -> (r: Vec<String>)
    ensures
        crate::tokenize::views(r@) == lines_of(s@),
{
    let n = s.unicode_len();
    let mut lines: Vec<String> = Vec::new();
    let mut cur = String::new();
    let mut i: usize = 0;
    proof {
        assert(crate::tokenize::views(lines@) =~= Seq::<Seq<char>>::empty());
        assert(cur@ =~= Seq::<char>::empty());
        assert(s@.subrange(0, n as int) =~= s@);
    }
    while i < n
        invariant
            n == s@.len(),
            i <= n,
            lines_of(s@) == lines_from(
                s@.subrange(i as int, n as int),
                cur@,
                crate::tokenize::views(lines@),
            ),
        decreases n - i,
    {
        let ghost rest = s@.subrange(i as int, n as int);
        assert(rest.drop_first() =~= s@.subrange(i + 1, n as int));
        let c = s.get_char(i);
        assert(rest[0] == c);
        if c == '\n' {
            let len = cur.unicode_len();
            let line = if len > 0 && cur.as_str().get_char(len - 1) == '\r' {
                String::from_str(cur.as_str().substring_char(0, len - 1))
            } else {
                cur
            };
            proof {
                assert(line@ =~= strip_cr(cur@));
                assert(crate::tokenize::views(lines@.push(line)) =~= crate::tokenize::views(
                    lines@,
                ).push(line@));
            }
            lines.push(line);
            cur = String::new();
            assert(cur@ =~= seq![]);
        } else {
            cur.push(c);
        }
        i = i + 1;
    }
    if cur.unicode_len() > 0 {
        proof {
            assert(crate::tokenize::views(lines@.push(cur)) =~= crate::tokenize::views(
                lines@,
            ).push(cur@));
        }
        lines.push(cur);
    }
    assert(s@.subrange(n as int, n as int).len() == 0);
    lines
}

/// The gateway address that a step's output shows, as `gateway_in` says.
pub fn find_gateway(output: &str, windows: bool) -> (r: Option<String>)
    ensures
        opt_view(r) == gateway_in(output@, windows),
{
    if windows {
        let lines = split_lines(output);
        let ghost ls = crate::tokenize::views(lines@);
        let mut i: usize = 0;
        while i < lines.len()
            invariant
                windows,
                ls == crate::tokenize::views(lines@),
                ls == lines_of(output@),
                i <= lines@.len(),
                first_capture_in_lines(WINDOWS_GATEWAY_PATTERN@, ls, 0)
                    == first_capture_in_lines(WINDOWS_GATEWAY_PATTERN@, ls, i as int),
            decreases lines@.len() - i,
        {
            assert(ls[i as int] == lines@[i as int]@);
            let found = regex_capture(WINDOWS_GATEWAY_PATTERN, lines[i].as_str());
            if found.is_some() {
                assert(first_capture_in_lines(WINDOWS_GATEWAY_PATTERN@, ls, i as int) == opt_view(
                    found,
                ));
                return found;
            }
            i = i + 1;
        }
        None
    } else {
        let found = regex_capture(LINUX_GATEWAY_PATTERN, output);
        if found.is_some() {
            return found;
        }
        regex_capture(MACOS_GATEWAY_PATTERN, output)
    }
}

/// The address that a host's own gateway report shows: on Windows the
/// leftmost gateway entry of an address report, elsewhere the leftmost
/// default route of the routing table.
pub fn route_report_gateway(report: &str, windows: bool) -> (r: Option<String>)
    ensures
        opt_view(r) == if windows {
            first_capture(WINDOWS_GATEWAY_PATTERN@, report@)
        } else {
            first_capture(LINUX_GATEWAY_PATTERN@, report@)
        },
{
    if windows {
        regex_capture(WINDOWS_GATEWAY_PATTERN, report)
    } else {
        regex_capture(LINUX_GATEWAY_PATTERN, report)
    }
}

/// Whether a lower-case purpose asks for the default gateway or router.
pub fn wants_gateway(purpose: &str) -> (r: bool)
    ensures
        r == asks_for_gateway(purpose@),
{
    contains_str(purpose, "find default gateway") || contains_str(purpose, "find router")
}

/// Records a found gateway address under `default_gateway`, unless it is
/// `0.0.0.0`, which counts as none.
pub fn record_gateway(facts: &mut FactTable, found: Option<String>)
    ensures
        final(facts)@ == with_gateway(old(facts)@, opt_view(found)),
{
    match found {
        Some(ip) => {
            if !str_eq(ip.as_str(), "0.0.0.0") {
                facts.insert(String::from_str("default_gateway"), ip);
            }
        },
        None => {},
    }
}

/// The facts after a step's output is read: when the step has a purpose that,
/// in lower case, asks for the default gateway or router, the gateway that the
/// output shows is recorded; otherwise, and for a step without a purpose,
/// nothing changes. Never fails.
pub open spec fn after_output(
    facts: Map<Seq<char>, Seq<char>>,
    purpose: Option<Seq<char>>,
    output: Seq<char>,
    windows: bool,
) -> Map<Seq<char>, Seq<char>> {
    match purpose {
        Some(p) => if asks_for_gateway(lower_of(p)) {
            with_gateway(facts, gateway_in(output, windows))
        } else {
            facts
        },
        None => facts,
    }
}

/// Reads the facts that a finished step's output shows into the table.
pub fn parse_and_store_output(
    facts: &mut FactTable,
    purpose: &Option<String>,
    output: &str,
    windows: bool,
)
    ensures
        final(facts)@ == after_output(old(facts)@, opt_view(*purpose), output@, windows),
{
    let lowered = match purpose {
        Some(p) => lowercase(p.as_str()),
        None => {
            return;
        },
    };
    if wants_gateway(lowered.as_str()) {
        let found = find_gateway(output, windows);
        record_gateway(facts, found);
    }
}

} // verus!
