//! HTTP request methods, by their wire names.
use vstd::prelude::*;
use vstd::string::StringSliceAdditionalSpecFns;
use crate::bytes::bytes_equal;

verus! {

/// An HTTP request method.
#[derive(Clone, Copy, PartialEq, Eq, Structural, Debug, Hash)]
pub enum Method {
    Acl,
    BaselineControl,
    Bind,
    Checkin,
    Checkout,
    Connect,
    Copy,
    Delete,
    Get,
    Head,
    Label,
    Link,
    Lock,
    Merge,
    MkActivity,
    MkCalendar,
    MkCol,
    MkRedirectRef,
    MkWorkspace,
    Move,
    Options,
    OrderPatch,
    Patch,
    Post,
    Pri,
    PropFind,
    PropPatch,
    Put,
    Rebind,
    Report,
    Search,
    Trace,
    Unbind,
    Uncheckout,
    Unlink,
    Unlock,
    Update,
    UpdateRedirectRef,
    VersionControl,
}

/// The wire name of each method.
pub open spec fn method_str(method: Method) -> &'static str {
    match method {
        Method::Acl => "ACL",
        Method::BaselineControl => "BASELINE-CONTROL",
        Method::Bind => "BIND",
        Method::Checkin => "CHECKIN",
        Method::Checkout => "CHECKOUT",
        Method::Connect => "CONNECT",
        Method::Copy => "COPY",
        Method::Delete => "DELETE",
        Method::Get => "GET",
        Method::Head => "HEAD",
        Method::Label => "LABEL",
        Method::Link => "LINK",
        Method::Lock => "LOCK",
        Method::Merge => "MERGE",
        Method::MkActivity => "MKACTIVITY",
        Method::MkCalendar => "MKCALENDAR",
        Method::MkCol => "MKCOL",
        Method::MkRedirectRef => "MKREDIRECTREF",
        Method::MkWorkspace => "MKWORKSPACE",
        Method::Move => "MOVE",
        Method::Options => "OPTIONS",
        Method::OrderPatch => "ORDERPATCH",
        Method::Patch => "PATCH",
        Method::Post => "POST",
        Method::Pri => "PRI",
        Method::PropFind => "PROPFIND",
        Method::PropPatch => "PROPPATCH",
        Method::Put => "PUT",
        Method::Rebind => "REBIND",
        Method::Report => "REPORT",
        Method::Search => "SEARCH",
        Method::Trace => "TRACE",
        Method::Unbind => "UNBIND",
        Method::Uncheckout => "UNCHECKOUT",
        Method::Unlink => "UNLINK",
        Method::Unlock => "UNLOCK",
        Method::Update => "UPDATE",
        Method::UpdateRedirectRef => "UPDATEREDIRECTREF",
        Method::VersionControl => "VERSION-CONTROL",
    }
}

/// The bytes of each method's wire name.
pub open spec fn method_bytes(method: Method) -> Seq<u8> {
    match method {
        Method::Acl => seq![65u8, 67, 76],
        Method::BaselineControl => seq![66u8, 65, 83, 69, 76, 73, 78, 69, 45, 67, 79, 78, 84, 82, 79, 76],
        Method::Bind => seq![66u8, 73, 78, 68],
        Method::Checkin => seq![67u8, 72, 69, 67, 75, 73, 78],
        Method::Checkout => seq![67u8, 72, 69, 67, 75, 79, 85, 84],
        Method::Connect => seq![67u8, 79, 78, 78, 69, 67, 84],
        Method::Copy => seq![67u8, 79, 80, 89],
        Method::Delete => seq![68u8, 69, 76, 69, 84, 69],
        Method::Get => seq![71u8, 69, 84],
        Method::Head => seq![72u8, 69, 65, 68],
        Method::Label => seq![76u8, 65, 66, 69, 76],
        Method::Link => seq![76u8, 73, 78, 75],
        Method::Lock => seq![76u8, 79, 67, 75],
        Method::Merge => seq![77u8, 69, 82, 71, 69],
        Method::MkActivity => seq![77u8, 75, 65, 67, 84, 73, 86, 73, 84, 89],
        Method::MkCalendar => seq![77u8, 75, 67, 65, 76, 69, 78, 68, 65, 82],
        Method::MkCol => seq![77u8, 75, 67, 79, 76],
        Method::MkRedirectRef => seq![77u8, 75, 82, 69, 68, 73, 82, 69, 67, 84, 82, 69, 70],
        Method::MkWorkspace => seq![77u8, 75, 87, 79, 82, 75, 83, 80, 65, 67, 69],
        Method::Move => seq![77u8, 79, 86, 69],
        Method::Options => seq![79u8, 80, 84, 73, 79, 78, 83],
        Method::OrderPatch => seq![79u8, 82, 68, 69, 82, 80, 65, 84, 67, 72],
        Method::Patch => seq![80u8, 65, 84, 67, 72],
        Method::Post => seq![80u8, 79, 83, 84],
        Method::Pri => seq![80u8, 82, 73],
        Method::PropFind => seq![80u8, 82, 79, 80, 70, 73, 78, 68],
        Method::PropPatch => seq![80u8, 82, 79, 80, 80, 65, 84, 67, 72],
        Method::Put => seq![80u8, 85, 84],
        Method::Rebind => seq![82u8, 69, 66, 73, 78, 68],
        Method::Report => seq![82u8, 69, 80, 79, 82, 84],
        Method::Search => seq![83u8, 69, 65, 82, 67, 72],
        Method::Trace => seq![84u8, 82, 65, 67, 69],
        Method::Unbind => seq![85u8, 78, 66, 73, 78, 68],
        Method::Uncheckout => seq![85u8, 78, 67, 72, 69, 67, 75, 79, 85, 84],
        Method::Unlink => seq![85u8, 78, 76, 73, 78, 75],
        Method::Unlock => seq![85u8, 78, 76, 79, 67, 75],
        Method::Update => seq![85u8, 80, 68, 65, 84, 69],
        Method::UpdateRedirectRef => seq![85u8, 80, 68, 65, 84, 69, 82, 69, 68, 73, 82, 69, 67, 84, 82, 69, 70],
        Method::VersionControl => seq![86u8, 69, 82, 83, 73, 79, 78, 45, 67, 79, 78, 84, 82, 79, 76],
    }
}

/// Every method, in declaration order.
pub open spec fn methods() -> Seq<Method> {
    seq![
        Method::Acl,
        Method::BaselineControl,
        Method::Bind,
        Method::Checkin,
        Method::Checkout,
        Method::Connect,
        Method::Copy,
        Method::Delete,
        Method::Get,
        Method::Head,
        Method::Label,
        Method::Link,
        Method::Lock,
        Method::Merge,
        Method::MkActivity,
        Method::MkCalendar,
        Method::MkCol,
        Method::MkRedirectRef,
        Method::MkWorkspace,
        Method::Move,
        Method::Options,
        Method::OrderPatch,
        Method::Patch,
        Method::Post,
        Method::Pri,
        Method::PropFind,
        Method::PropPatch,
        Method::Put,
        Method::Rebind,
        Method::Report,
        Method::Search,
        Method::Trace,
        Method::Unbind,
        Method::Uncheckout,
        Method::Unlink,
        Method::Unlock,
        Method::Update,
        Method::UpdateRedirectRef,
        Method::VersionControl,
    ]
}

/// The first method at or after position `from` of [`methods`] whose wire name is `bytes`.
pub open spec fn method_with_bytes(bytes: Seq<u8>, from: int) -> Option<Method>
    decreases methods().len() - from,
{
    if from < 0 || from >= methods().len() {
        None
    } else if same_wire_name(method_bytes(methods()[from]), bytes) {
        Some(methods()[from])
    } else {
        method_with_bytes(bytes, from + 1)
    }
}

/// The wire name of a method, as bytes, is the bytes of its wire name as text.
pub proof fn lemma_method_str_bytes(method: Method)
    ensures
        method_str(method).spec_bytes() == method_bytes(method),
{
    broadcast use vstd::string::group_string_axioms;
    match method {
        Method::Acl => {
            reveal_strlit("ACL");
            let s = "ACL";
            assert(s@ =~= seq!['A', 'C', 'L']);
            assert(vstd::string::is_ascii(s));
            assert(method_str(method).spec_bytes() =~= method_bytes(method));
        },
        Method::BaselineControl => {
            reveal_strlit("BASELINE-CONTROL");
            let s = "BASELINE-CONTROL";
            assert(s@ =~= seq!['B', 'A', 'S', 'E', 'L', 'I', 'N', 'E', '-', 'C', 'O', 'N', 'T', 'R', 'O', 'L']);
            assert(vstd::string::is_ascii(s));
            assert(method_str(method).spec_bytes() =~= method_bytes(method));
        },
        Method::Bind => {
            reveal_strlit("BIND");
            let s = "BIND";
            assert(s@ =~= seq!['B', 'I', 'N', 'D']);
            assert(vstd::string::is_ascii(s));
            assert(method_str(method).spec_bytes() =~= method_bytes(method));
        },
        Method::Checkin => {
            reveal_strlit("CHECKIN");
            let s = "CHECKIN";
            assert(s@ =~= seq!['C', 'H', 'E', 'C', 'K', 'I', 'N']);
            assert(vstd::string::is_ascii(s));
            assert(method_str(method).spec_bytes() =~= method_bytes(method));
        },
        Method::Checkout => {
            reveal_strlit("CHECKOUT");
            let s = "CHECKOUT";
            assert(s@ =~= seq!['C', 'H', 'E', 'C', 'K', 'O', 'U', 'T']);
            assert(vstd::string::is_ascii(s));
            assert(method_str(method).spec_bytes() =~= method_bytes(method));
        },
        Method::Connect => {
            reveal_strlit("CONNECT");
            let s = "CONNECT";
            assert(s@ =~= seq!['C', 'O', 'N', 'N', 'E', 'C', 'T']);
            assert(vstd::string::is_ascii(s));
            assert(method_str(method).spec_bytes() =~= method_bytes(method));
        },
        Method::Copy => {
            reveal_strlit("COPY");
            let s = "COPY";
            assert(s@ =~= seq!['C', 'O', 'P', 'Y']);
            assert(vstd::string::is_ascii(s));
            assert(method_str(method).spec_bytes() =~= method_bytes(method));
        },
        Method::Delete => {
            reveal_strlit("DELETE");
            let s = "DELETE";
            assert(s@ =~= seq!['D', 'E', 'L', 'E', 'T', 'E']);
            assert(vstd::string::is_ascii(s));
            assert(method_str(method).spec_bytes() =~= method_bytes(method));
        },
        Method::Get => {
            reveal_strlit("GET");
            let s = "GET";
            assert(s@ =~= seq!['G', 'E', 'T']);
            assert(vstd::string::is_ascii(s));
            assert(method_str(method).spec_bytes() =~= method_bytes(method));
        },
        Method::Head => {
            reveal_strlit("HEAD");
            let s = "HEAD";
            assert(s@ =~= seq!['H', 'E', 'A', 'D']);
            assert(vstd::string::is_ascii(s));
            assert(method_str(method).spec_bytes() =~= method_bytes(method));
        },
        Method::Label => {
            reveal_strlit("LABEL");
            let s = "LABEL";
            assert(s@ =~= seq!['L', 'A', 'B', 'E', 'L']);
            assert(vstd::string::is_ascii(s));
            assert(method_str(method).spec_bytes() =~= method_bytes(method));
        },
        Method::Link => {
            reveal_strlit("LINK");
            let s = "LINK";
            assert(s@ =~= seq!['L', 'I', 'N', 'K']);
            assert(vstd::string::is_ascii(s));
            assert(method_str(method).spec_bytes() =~= method_bytes(method));
        },
        Method::Lock => {
            reveal_strlit("LOCK");
            let s = "LOCK";
            assert(s@ =~= seq!['L', 'O', 'C', 'K']);
            assert(vstd::string::is_ascii(s));
            assert(method_str(method).spec_bytes() =~= method_bytes(method));
        },
        Method::Merge => {
            reveal_strlit("MERGE");
            let s = "MERGE";
            assert(s@ =~= seq!['M', 'E', 'R', 'G', 'E']);
            assert(vstd::string::is_ascii(s));
            assert(method_str(method).spec_bytes() =~= method_bytes(method));
        },
        Method::MkActivity => {
            reveal_strlit("MKACTIVITY");
            let s = "MKACTIVITY";
            assert(s@ =~= seq!['M', 'K', 'A', 'C', 'T', 'I', 'V', 'I', 'T', 'Y']);
            assert(vstd::string::is_ascii(s));
            assert(method_str(method).spec_bytes() =~= method_bytes(method));
        },
        Method::MkCalendar => {
            reveal_strlit("MKCALENDAR");
            let s = "MKCALENDAR";
            assert(s@ =~= seq!['M', 'K', 'C', 'A', 'L', 'E', 'N', 'D', 'A', 'R']);
            assert(vstd::string::is_ascii(s));
            assert(method_str(method).spec_bytes() =~= method_bytes(method));
        },
        Method::MkCol => {
            reveal_strlit("MKCOL");
            let s = "MKCOL";
            assert(s@ =~= seq!['M', 'K', 'C', 'O', 'L']);
            assert(vstd::string::is_ascii(s));
            assert(method_str(method).spec_bytes() =~= method_bytes(method));
        },
        Method::MkRedirectRef => {
            reveal_strlit("MKREDIRECTREF");
            let s = "MKREDIRECTREF";
            assert(s@ =~= seq!['M', 'K', 'R', 'E', 'D', 'I', 'R', 'E', 'C', 'T', 'R', 'E', 'F']);
            assert(vstd::string::is_ascii(s));
            assert(method_str(method).spec_bytes() =~= method_bytes(method));
        },
        Method::MkWorkspace => {
            reveal_strlit("MKWORKSPACE");
            let s = "MKWORKSPACE";
            assert(s@ =~= seq!['M', 'K', 'W', 'O', 'R', 'K', 'S', 'P', 'A', 'C', 'E']);
            assert(vstd::string::is_ascii(s));
            assert(method_str(method).spec_bytes() =~= method_bytes(method));
        },
        Method::Move => {
            reveal_strlit("MOVE");
            let s = "MOVE";
            assert(s@ =~= seq!['M', 'O', 'V', 'E']);
            assert(vstd::string::is_ascii(s));
            assert(method_str(method).spec_bytes() =~= method_bytes(method));
        },
        Method::Options => {
            reveal_strlit("OPTIONS");
            let s = "OPTIONS";
            assert(s@ =~= seq!['O', 'P', 'T', 'I', 'O', 'N', 'S']);
            assert(vstd::string::is_ascii(s));
            assert(method_str(method).spec_bytes() =~= method_bytes(method));
        },
        Method::OrderPatch => {
            reveal_strlit("ORDERPATCH");
            let s = "ORDERPATCH";
            assert(s@ =~= seq!['O', 'R', 'D', 'E', 'R', 'P', 'A', 'T', 'C', 'H']);
            assert(vstd::string::is_ascii(s));
            assert(method_str(method).spec_bytes() =~= method_bytes(method));
        },
        Method::Patch => {
            reveal_strlit("PATCH");
            let s = "PATCH";
            assert(s@ =~= seq!['P', 'A', 'T', 'C', 'H']);
            assert(vstd::string::is_ascii(s));
            assert(method_str(method).spec_bytes() =~= method_bytes(method));
        },
        Method::Post => {
            reveal_strlit("POST");
            let s = "POST";
            assert(s@ =~= seq!['P', 'O', 'S', 'T']);
            assert(vstd::string::is_ascii(s));
            assert(method_str(method).spec_bytes() =~= method_bytes(method));
        },
        Method::Pri => {
            reveal_strlit("PRI");
            let s = "PRI";
            assert(s@ =~= seq!['P', 'R', 'I']);
            assert(vstd::string::is_ascii(s));
            assert(method_str(method).spec_bytes() =~= method_bytes(method));
        },
        Method::PropFind => {
            reveal_strlit("PROPFIND");
            let s = "PROPFIND";
            assert(s@ =~= seq!['P', 'R', 'O', 'P', 'F', 'I', 'N', 'D']);
            assert(vstd::string::is_ascii(s));
            assert(method_str(method).spec_bytes() =~= method_bytes(method));
        },
        Method::PropPatch => {
            reveal_strlit("PROPPATCH");
            let s = "PROPPATCH";
            assert(s@ =~= seq!['P', 'R', 'O', 'P', 'P', 'A', 'T', 'C', 'H']);
            assert(vstd::string::is_ascii(s));
            assert(method_str(method).spec_bytes() =~= method_bytes(method));
        },
        Method::Put => {
            reveal_strlit("PUT");
            let s = "PUT";
            assert(s@ =~= seq!['P', 'U', 'T']);
            assert(vstd::string::is_ascii(s));
            assert(method_str(method).spec_bytes() =~= method_bytes(method));
        },
        Method::Rebind => {
            reveal_strlit("REBIND");
            let s = "REBIND";
            assert(s@ =~= seq!['R', 'E', 'B', 'I', 'N', 'D']);
            assert(vstd::string::is_ascii(s));
            assert(method_str(method).spec_bytes() =~= method_bytes(method));
        },
        Method::Report => {
            reveal_strlit("REPORT");
            let s = "REPORT";
            assert(s@ =~= seq!['R', 'E', 'P', 'O', 'R', 'T']);
            assert(vstd::string::is_ascii(s));
            assert(method_str(method).spec_bytes() =~= method_bytes(method));
        },
        Method::Search => {
            reveal_strlit("SEARCH");
            let s = "SEARCH";
            assert(s@ =~= seq!['S', 'E', 'A', 'R', 'C', 'H']);
            assert(vstd::string::is_ascii(s));
            assert(method_str(method).spec_bytes() =~= method_bytes(method));
        },
        Method::Trace => {
            reveal_strlit("TRACE");
            let s = "TRACE";
            assert(s@ =~= seq!['T', 'R', 'A', 'C', 'E']);
            assert(vstd::string::is_ascii(s));
            assert(method_str(method).spec_bytes() =~= method_bytes(method));
        },
        Method::Unbind => {
            reveal_strlit("UNBIND");
            let s = "UNBIND";
            assert(s@ =~= seq!['U', 'N', 'B', 'I', 'N', 'D']);
            assert(vstd::string::is_ascii(s));
            assert(method_str(method).spec_bytes() =~= method_bytes(method));
        },
        Method::Uncheckout => {
            reveal_strlit("UNCHECKOUT");
            let s = "UNCHECKOUT";
            assert(s@ =~= seq!['U', 'N', 'C', 'H', 'E', 'C', 'K', 'O', 'U', 'T']);
            assert(vstd::string::is_ascii(s));
            assert(method_str(method).spec_bytes() =~= method_bytes(method));
        },
        Method::Unlink => {
            reveal_strlit("UNLINK");
            let s = "UNLINK";
            assert(s@ =~= seq!['U', 'N', 'L', 'I', 'N', 'K']);
            assert(vstd::string::is_ascii(s));
            assert(method_str(method).spec_bytes() =~= method_bytes(method));
        },
        Method::Unlock => {
            reveal_strlit("UNLOCK");
            let s = "UNLOCK";
            assert(s@ =~= seq!['U', 'N', 'L', 'O', 'C', 'K']);
            assert(vstd::string::is_ascii(s));
            assert(method_str(method).spec_bytes() =~= method_bytes(method));
        },
        Method::Update => {
            reveal_strlit("UPDATE");
            let s = "UPDATE";
            assert(s@ =~= seq!['U', 'P', 'D', 'A', 'T', 'E']);
            assert(vstd::string::is_ascii(s));
            assert(method_str(method).spec_bytes() =~= method_bytes(method));
        },
        Method::UpdateRedirectRef => {
            reveal_strlit("UPDATEREDIRECTREF");
            let s = "UPDATEREDIRECTREF";
            assert(s@ =~= seq!['U', 'P', 'D', 'A', 'T', 'E', 'R', 'E', 'D', 'I', 'R', 'E', 'C', 'T', 'R', 'E', 'F']);
            assert(vstd::string::is_ascii(s));
            assert(method_str(method).spec_bytes() =~= method_bytes(method));
        },
        Method::VersionControl => {
            reveal_strlit("VERSION-CONTROL");
            let s = "VERSION-CONTROL";
            assert(s@ =~= seq!['V', 'E', 'R', 'S', 'I', 'O', 'N', '-', 'C', 'O', 'N', 'T', 'R', 'O', 'L']);
            assert(vstd::string::is_ascii(s));
            assert(method_str(method).spec_bytes() =~= method_bytes(method));
        },
    }
}

/// Two wire names are equal.  The length and the first four bytes are spelled out: any
/// two method names already differ there.
pub open spec fn same_wire_name(a: Seq<u8>, b: Seq<u8>) -> bool {
    &&& a.len() == b.len()
    &&& a[0] == b[0]
    &&& a[1] == b[1]
    &&& a[2] == b[2]
    &&& a[3] == b[3]
    &&& a == b
}

/// Reading a method's wire name back gives the method.
pub proof fn lemma_method_bytes_roundtrip(method: Method)
    ensures
        method_with_bytes(method_bytes(method), 0) == Some(method),
{
    match method {
        Method::Acl => reveal_with_fuel(method_with_bytes, 1),
        Method::BaselineControl => reveal_with_fuel(method_with_bytes, 2),
        Method::Bind => reveal_with_fuel(method_with_bytes, 3),
        Method::Checkin => reveal_with_fuel(method_with_bytes, 4),
        Method::Checkout => reveal_with_fuel(method_with_bytes, 5),
        Method::Connect => reveal_with_fuel(method_with_bytes, 6),
        Method::Copy => reveal_with_fuel(method_with_bytes, 7),
        Method::Delete => reveal_with_fuel(method_with_bytes, 8),
        Method::Get => reveal_with_fuel(method_with_bytes, 9),
        Method::Head => reveal_with_fuel(method_with_bytes, 10),
        Method::Label => reveal_with_fuel(method_with_bytes, 11),
        Method::Link => reveal_with_fuel(method_with_bytes, 12),
        Method::Lock => reveal_with_fuel(method_with_bytes, 13),
        Method::Merge => reveal_with_fuel(method_with_bytes, 14),
        Method::MkActivity => reveal_with_fuel(method_with_bytes, 15),
        Method::MkCalendar => reveal_with_fuel(method_with_bytes, 16),
        Method::MkCol => reveal_with_fuel(method_with_bytes, 17),
        Method::MkRedirectRef => reveal_with_fuel(method_with_bytes, 18),
        Method::MkWorkspace => reveal_with_fuel(method_with_bytes, 19),
        Method::Move => reveal_with_fuel(method_with_bytes, 20),
        Method::Options => reveal_with_fuel(method_with_bytes, 21),
        Method::OrderPatch => reveal_with_fuel(method_with_bytes, 22),
        Method::Patch => reveal_with_fuel(method_with_bytes, 23),
        Method::Post => reveal_with_fuel(method_with_bytes, 24),
        Method::Pri => reveal_with_fuel(method_with_bytes, 25),
        Method::PropFind => reveal_with_fuel(method_with_bytes, 26),
        Method::PropPatch => reveal_with_fuel(method_with_bytes, 27),
        Method::Put => reveal_with_fuel(method_with_bytes, 28),
        Method::Rebind => reveal_with_fuel(method_with_bytes, 29),
        Method::Report => reveal_with_fuel(method_with_bytes, 30),
        Method::Search => reveal_with_fuel(method_with_bytes, 31),
        Method::Trace => reveal_with_fuel(method_with_bytes, 32),
        Method::Unbind => reveal_with_fuel(method_with_bytes, 33),
        Method::Uncheckout => reveal_with_fuel(method_with_bytes, 34),
        Method::Unlink => reveal_with_fuel(method_with_bytes, 35),
        Method::Unlock => reveal_with_fuel(method_with_bytes, 36),
        Method::Update => reveal_with_fuel(method_with_bytes, 37),
        Method::UpdateRedirectRef => reveal_with_fuel(method_with_bytes, 38),
        Method::VersionControl => reveal_with_fuel(method_with_bytes, 39),
    }
}

impl Method {
    /// The wire name of this method.
    pub fn as_str(self) -> (s: &'static str)
        ensures
            s == method_str(self),
            s.spec_bytes() == method_bytes(self),
    {
        proof {
            lemma_method_str_bytes(self);
        }
        match self {
            Method::Acl => "ACL",
            Method::BaselineControl => "BASELINE-CONTROL",
            Method::Bind => "BIND",
            Method::Checkin => "CHECKIN",
            Method::Checkout => "CHECKOUT",
            Method::Connect => "CONNECT",
            Method::Copy => "COPY",
            Method::Delete => "DELETE",
            Method::Get => "GET",
            Method::Head => "HEAD",
            Method::Label => "LABEL",
            Method::Link => "LINK",
            Method::Lock => "LOCK",
            Method::Merge => "MERGE",
            Method::MkActivity => "MKACTIVITY",
            Method::MkCalendar => "MKCALENDAR",
            Method::MkCol => "MKCOL",
            Method::MkRedirectRef => "MKREDIRECTREF",
            Method::MkWorkspace => "MKWORKSPACE",
            Method::Move => "MOVE",
            Method::Options => "OPTIONS",
            Method::OrderPatch => "ORDERPATCH",
            Method::Patch => "PATCH",
            Method::Post => "POST",
            Method::Pri => "PRI",
            Method::PropFind => "PROPFIND",
            Method::PropPatch => "PROPPATCH",
            Method::Put => "PUT",
            Method::Rebind => "REBIND",
            Method::Report => "REPORT",
            Method::Search => "SEARCH",
            Method::Trace => "TRACE",
            Method::Unbind => "UNBIND",
            Method::Uncheckout => "UNCHECKOUT",
            Method::Unlink => "UNLINK",
            Method::Unlock => "UNLOCK",
            Method::Update => "UPDATE",
            Method::UpdateRedirectRef => "UPDATEREDIRECTREF",
            Method::VersionControl => "VERSION-CONTROL",
        }
    }

    /// Every method, in declaration order.
    pub fn all() -> (all: Vec<Method>)
        ensures
            all@ == methods(),
    {
        let all = vec![
            Method::Acl,
            Method::BaselineControl,
            Method::Bind,
            Method::Checkin,
            Method::Checkout,
            Method::Connect,
            Method::Copy,
            Method::Delete,
            Method::Get,
            Method::Head,
            Method::Label,
            Method::Link,
            Method::Lock,
            Method::Merge,
            Method::MkActivity,
            Method::MkCalendar,
            Method::MkCol,
            Method::MkRedirectRef,
            Method::MkWorkspace,
            Method::Move,
            Method::Options,
            Method::OrderPatch,
            Method::Patch,
            Method::Post,
            Method::Pri,
            Method::PropFind,
            Method::PropPatch,
            Method::Put,
            Method::Rebind,
            Method::Report,
            Method::Search,
            Method::Trace,
            Method::Unbind,
            Method::Uncheckout,
            Method::Unlink,
            Method::Unlock,
            Method::Update,
            Method::UpdateRedirectRef,
            Method::VersionControl,
        ];
        assert(all@ =~= methods());
        all
    }

    /// Parse a method from its wire name (case-sensitive).
    pub fn parse(bytes: &[u8]) -> (method: Option<Method>)
        ensures
            method == method_with_bytes(bytes@, 0),
    {
        let all = Method::all();
        let mut i: usize = 0;
        while i < all.len()
            invariant
                0 <= i <= all@.len(),
                all@ == methods(),
                method_with_bytes(bytes@, 0) == method_with_bytes(bytes@, i as int),
            decreases all@.len() - i,
        {
            let m = all[i];
            if bytes_equal(bytes, m.as_str().as_bytes()) {
                return Some(m);
            }
            i = i + 1;
        }
        None
    }
}

} // verus!
