//! What holds of the services: metric producers, HTTP requests, shell commands and
//! readings of the system.

use vstd::prelude::*;

use crate::clickhouse_generator::GENERATE_FAILED;
use crate::dispatch::{DEFAULT_LOG_PATH, LOG_PATH_NOT_UNICODE, WICKETD_PORT};
use crate::http_server::{
    demo_json, demo_path, has_names, has_room, header_values, is_header_name, is_header_value,
    is_name_char, is_ok_json, is_value_char, json_char, json_text, DemoHandler, Response,
    CONTENT_TYPE, CONTENT_TYPE_JSON, HEADER_REQUEST_ID,
};
use crate::metrics_producer_gc::{GcReport, OUT_OF_BOUNDS};
use crate::net::SocketAddr;
use crate::producer::{is_next_step, url_of, Error, ProducerEndpoint, StartEvent, StartStep};
use crate::sysconf::{bounded, Reading, PAGES, PAGE_SIZE, PROCESSORS};
use crate::text::{decimal, hex_digit};
use crate::time::{is_earlier_by, Duration, Timestamp};

verus! {

// ---
// Pruning of metric producers
// ---

/// A producer is pruned only where more time has passed since its lease was renewed
/// than the lease lasts.
pub proof fn law_only_expired_leases_are_pruned(
    expiration: Timestamp,
    now: Timestamp,
    lease: Duration,
    renewed: Timestamp,
)
    requires
        is_earlier_by(Some(expiration), now, lease),
    ensures
        renewed.instant() < expiration.instant() <==> now.instant() - renewed.instant()
            > lease.length(),
{
}

/// A report tells an error where pruning failed as a whole, and otherwise the
/// expiration and who was pruned, with the errors where there were any.
pub proof fn law_fields_of_a_report(report: GcReport)
    ensures
        report is OutOfBounds ==> report.field_names() == seq!["error"@, "lease_duration"@],
        report is Failed ==> report.field_names() == seq!["error"@],
        report is Complete ==> report.field_names() == seq!["expiration"@, "pruned"@],
        report is CompleteWithErrors ==> report.field_names() == seq![
            "expiration"@,
            "pruned"@,
            "errors"@,
        ],
        OUT_OF_BOUNDS@ == "out of bounds lease duration"@,
{
}

// ---
// Starting of metric producers
// ---

/// A producer is started step by step, and each step that fails ends it: with the error
/// of the server, unless it is that of the registration.
pub proof fn law_steps_follow_each_other(
    r: Result<StartStep, Error>,
    server_info: ProducerEndpoint,
    registration_address: SocketAddr,
    event: StartEvent,
)
    requires
        is_next_step(r, server_info, registration_address, event),
    ensures
        match event {
            StartEvent::Logger(done) => {
                &&& done is Ok ==> r is Ok && r->Ok_0 is RegisterProbes
                &&& done is Err ==> r is Err && r->Err_0 is Server && r->Err_0->Server_0
                    == done->Err_0
            },
            StartEvent::Probes(done) => {
                &&& done is Ok ==> r is Ok && r->Ok_0 is StartServer && r->Ok_0->producer_id
                    == server_info.id
                &&& done is Err ==> r is Err && r->Err_0 is Server && r->Err_0->Server_0@
                    == "failed to register DTrace probes: "@ + done->Err_0@
            },
            StartEvent::Server(done) => {
                &&& done is Ok ==> r is Ok && r->Ok_0 is Register && r->Ok_0->url@ == "http://"@
                    + registration_address.text()
                &&& done is Ok ==> r->Ok_0->server_info.address == done->Ok_0
                &&& done is Err ==> r is Err && r->Err_0 is Server && r->Err_0->Server_0
                    == done->Err_0
            },
            StartEvent::Registration(done) => {
                &&& done is Ok ==> r is Ok && r->Ok_0 is Done
                &&& done is Err ==> r is Err && r->Err_0 == done->Err_0
            },
        },
{
}

/// The texts of the errors of a producer, and the URL of a server.
pub proof fn law_texts_of_a_producer(e: Error, address: SocketAddr)
    ensures
        e is Server ==> e.text() == "Error running producer HTTP server: "@ + e->Server_0@,
        e is RegistrationError ==> e.text() == "Error registering as metric producer: "@
            + e->RegistrationError_0@,
        url_of(address) == "http://"@ + address.text(),
        GENERATE_FAILED@ == "failed to generate ClickHouse configuration file for 'ZONE_ID' "@,
{
}

// ---
// HTTP requests
// ---

/// A header value can hold all but control characters other than the tab, and a header
/// name lower-case letters, digits and hyphens.
pub proof fn law_characters_of_headers(c: char, s: Seq<char>, t: Seq<char>)
    ensures
        is_value_char(c) <==> c as u32 == 9 || (c as u32 >= 32 && c as u32 != 127),
        is_name_char(c) <==> ('a' <= c && c <= 'z') || ('0' <= c && c <= '9') || c == '-',
        is_header_value(Seq::empty()),
        is_header_value(s.push(c)) <==> is_header_value(s) && is_value_char(c),
        is_header_value(s + t) <==> is_header_value(s) && is_header_value(t),
        is_header_name(s) ==> 0 < s.len() <= 100,
        0 < s.len() < 100 ==> (is_header_name(s.push(c)) <==> is_header_name(s) && is_name_char(
            c,
        )),
        is_header_name(seq![c]) <==> is_name_char(c),
{
    assert(s.push(c)[s.len() as int] == c);
    assert forall|i: int| 0 <= i < s.len() implies #[trigger] s.push(c)[i] == s[i] by {}
    if is_header_value(s.push(c)) {
        assert forall|i: int| 0 <= i < s.len() implies is_value_char(#[trigger] s[i]) by {
            assert(s.push(c)[i] == s[i]);
        }
    }
    if is_header_value(s + t) {
        assert forall|i: int| 0 <= i < s.len() implies is_value_char(#[trigger] s[i]) by {
            assert((s + t)[i] == s[i]);
        }
        assert forall|i: int| 0 <= i < t.len() implies is_value_char(#[trigger] t[i]) by {
            assert((s + t)[s.len() + i] == t[i]);
        }
    }
    if 0 < s.len() < 100 && is_header_name(s.push(c)) {
        assert forall|i: int| 0 <= i < s.len() implies is_name_char(#[trigger] s[i]) by {
            assert(s.push(c)[i] == s[i]);
        }
    }
    assert(seq![c][0] == c);
}

/// A header can be inserted where there are up to 6553 names.
pub proof fn law_room_for_headers(headers: http::HeaderMap, n: nat)
    requires
        has_names(headers, n),
    ensures
        has_room(headers) <==> n <= 6553,
        header_values(headers).dom().len() == n,
{
}

/// A character of a string stands in JSON for itself, unless it is a quote, a backslash
/// or a control character: those are escaped by a letter or by their number.
pub proof fn law_escapes_in_json(c: char)
    ensures
        c == '"' ==> json_char(c) == seq!['\\', '"'],
        c == '\\' ==> json_char(c) == seq!['\\', '\\'],
        c as u32 == 8 ==> json_char(c) == seq!['\\', 'b'],
        c as u32 == 9 ==> json_char(c) == seq!['\\', 't'],
        c as u32 == 10 ==> json_char(c) == seq!['\\', 'n'],
        c as u32 == 12 ==> json_char(c) == seq!['\\', 'f'],
        c as u32 == 13 ==> json_char(c) == seq!['\\', 'r'],
        c as u32 >= 32 && c != '"' && c != '\\' ==> json_char(c) == seq![c],
        (c as u32) < 32 ==> json_char(c).len() == 2 || json_char(c) == seq![
            '\\',
            'u',
            '0',
            '0',
            hex_digit(c as int / 16),
            hex_digit(c as int % 16),
        ],
        (c as u32) < 32 ==> json_char(c)[0] == '\\',
        forall|i: int| 0 <= i < json_char(c).len() ==> (#[trigger] json_char(c)[i]) as u32 >= 32,
{
    let n = c as int;
    if n < 32 {
        assert(0 <= n / 16 < 2 && 0 <= n % 16 < 16);
        let (a, b) = (hex_digit(n / 16), hex_digit(n % 16));
        assert(a == '0' || a == '1');
        assert(('0' <= b && b <= '9') || ('a' <= b && b <= 'f'));
    }
}

/// The JSON text of a string stands in quotes, and one more character comes before the
/// closing one.
pub proof fn law_json_of_a_string(s: Seq<char>, c: char)
    ensures
        json_text(Seq::empty()) == seq!['"', '"'],
        json_text(s).len() >= 2,
        json_text(s).first() == '"',
        json_text(s).last() == '"',
        json_text(s.push(c)) == json_text(s).drop_last() + json_char(c) + seq!['"'],
{
    let parts = s.map_values(|c: char| json_char(c));
    let none = Seq::<char>::empty().map_values(|c: char| json_char(c));
    assert(none =~= Seq::empty());
    assert(none.flatten() =~= Seq::empty());
    assert(json_text(Seq::empty()) =~= seq!['"', '"']);
    assert(s.push(c).map_values(|c: char| json_char(c)) =~= parts.push(json_char(c)));
    parts.lemma_flatten_push(json_char(c));
    assert(json_text(s.push(c)) =~= json_text(s).drop_last() + json_char(c) + seq!['"']);
}

/// The demo endpoints and what they answer with.
pub proof fn law_demo_answers(r: Response, body: Seq<char>, test1: Seq<char>, n: u32)
    ensures
        demo_path(DemoHandler::Args1) == "/testing/demo1"@,
        demo_path(DemoHandler::Args2Query) == "/testing/demo2query"@,
        demo_path(DemoHandler::Args2Json) == "/testing/demo2json"@,
        demo_path(DemoHandler::Args3) == "/testing/demo3"@,
        demo_json(test1, Some(n)) == "{\"test1\":"@ + json_text(test1) + ",\"test2\":"@ + decimal(
            n as nat,
        ) + "}"@,
        demo_json(test1, None) == "{\"test1\":"@ + json_text(test1) + ",\"test2\":"@ + "null"@
            + "}"@,
        is_ok_json(r, body) ==> {
            &&& r.status == 200
            &&& r.body@ == body
            &&& header_values(r.headers).dom() == set!["content-type"@]
            &&& header_values(r.headers)["content-type"@] == seq!["application/json"@]
        },
        HEADER_REQUEST_ID@ == "x-request-id"@,
        CONTENT_TYPE@ == "content-type"@,
        CONTENT_TYPE_JSON@ == "application/json"@,
{
    if is_ok_json(r, body) {
        assert(header_values(r.headers).dom() =~= set!["content-type"@]);
    }
}

// ---
// Shell commands
// ---

/// The defaults of shell commands.
pub proof fn law_defaults_of_shell_commands()
    ensures
        WICKETD_PORT == 12226,
        DEFAULT_LOG_PATH@ == "/tmp/wicket.log"@,
        LOG_PATH_NOT_UNICODE@ == "WICKET_LOG_PATH is not valid unicode"@,
{
}

// ---
// Readings of the system
// ---

/// A reading is taken where it lies between zero and the largest value, both ends
/// allowed. It does not fit otherwise, and an error in reading it is told with what was
/// read.
pub proof fn law_readings_are_bounded(reading: Reading, arg: &'static str, max: int)
    ensures
        ({
            let r = bounded(reading, arg, max);
            &&& reading is Err ==> r is Err && r->Err_0 is Sysconf && r->Err_0->arg == arg
                && r->Err_0->e == reading->Err_0
            &&& reading is Ok && 0 <= reading->Ok_0 <= max ==> r is Ok && r->Ok_0 == reading->Ok_0
            &&& reading is Ok && (reading->Ok_0 < 0 || reading->Ok_0 > max) ==> r is Err
                && r->Err_0 is Integer
        }),
{
}

/// The texts of errors in reading, and what is read.
pub proof fn law_texts_of_readings(e: crate::sysconf::Error)
    ensures
        e is Sysconf ==> e.text() == "sysconf failed accessing "@ + e->arg@ + ": "@ + e->e@,
        e is Integer ==> e.text() == "Integer conversion error: "@
            + "out of range integral type conversion attempted"@,
        PROCESSORS@ == "online processor count"@,
        PAGES@ == "physical pages"@,
        PAGE_SIZE@ == "physical page size"@,
{
}

} // verus!
