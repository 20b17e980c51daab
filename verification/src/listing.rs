//! The socket listing parser: reads the listing tool's tabular output into
//! `PortInfo` records. The header line is skipped; a line is well-formed
//! only if it splits into at least nine whitespace-separated fields and its
//! second field parses as a process id; malformed lines are silently
//! skipped. Field 2 is the user; fields 8 onward, joined with single
//! spaces, form the descriptor from which protocol, socket state, and (in
//! all-ports mode) the port itself are derived.

use vstd::prelude::*;
use crate::records::PortInfo;
use crate::sys;
use crate::sys::ProcMeta;
use crate::classify::detect_source;
use crate::classify::is_source_label;
use crate::text::after_last_colon;
use crate::text::before_space;
use crate::text::body_of;
use crate::text::dec_u16;
use crate::text::dec_u32;
use crate::text::find_substr;
use crate::text::has_substr;
use crate::text::join_from;
use crate::text::join_ws;
use crate::text::parse_u16;
use crate::text::parse_u32;
use crate::text::prefix_before_space;
use crate::text::split_fields;
use crate::text::split_lines;
use crate::text::split_ws;
use crate::text::suffix_after_last_colon;
use crate::text::to_lines;
use crate::text::views_of;

verus! {

/// A line is well-formed when it has at least nine fields and its second
/// field is a process id.
pub open spec fn line_well_formed(l: Seq<char>) -> bool {
    split_ws(l).len() >= 9 && dec_u32(split_ws(l)[1]) is Some
}

/// The process id of a well-formed line.
pub open spec fn line_pid(l: Seq<char>) -> Option<u32> {
    if split_ws(l).len() >= 2 {
        dec_u32(split_ws(l)[1])
    } else {
        None
    }
}

/// The user column of a well-formed line.
pub open spec fn line_user(l: Seq<char>) -> Seq<char> {
    split_ws(l)[2]
}

/// The descriptor: fields 8 onward, joined with single spaces.
pub open spec fn line_desc(l: Seq<char>) -> Seq<char> {
    join_ws(split_ws(l).subrange(8, split_ws(l).len() as int))
}

/// A line describes a listening socket.
pub open spec fn line_listening(l: Seq<char>) -> bool {
    has_substr(line_desc(l), "(LISTEN)"@)
}

/// The protocol derived from the descriptor: a listening socket is tcp; a
/// descriptor mentioning UDP is udp; anything else is tcp.
pub open spec fn line_protocol(l: Seq<char>) -> Seq<char> {
    if !line_listening(l) && has_substr(line_desc(l), "UDP"@) {
        "udp"@
    } else {
        "tcp"@
    }
}

/// The remarks column of the produced record.
pub open spec fn line_remarks(l: Seq<char>) -> Seq<char> {
    if line_listening(l) {
        "LISTENING"@
    } else {
        "CONNECTED"@
    }
}

/// The port a descriptor denotes: the token after the last colon and
/// before the next space, read as a decimal 16-bit number.
pub open spec fn line_port(l: Seq<char>) -> Option<u16> {
    dec_u16(before_space(after_last_colon(line_desc(l))))
}

/// A line of a single-port listing is kept when it is well-formed and
/// passes the listening filter.
pub open spec fn keep_fixed(l: Seq<char>, only_listening: bool) -> bool {
    line_well_formed(l) && (!only_listening || line_listening(l))
}

/// The kept lines of a single-port listing, in order.
pub open spec fn kept_fixed(lines: Seq<Seq<char>>, only_listening: bool) -> Seq<Seq<char>>
    decreases lines.len(),
{
    if lines.len() == 0 {
        Seq::empty()
    } else {
        let rest = kept_fixed(lines.subrange(0, lines.len() - 1), only_listening);
        if keep_fixed(lines[lines.len() - 1], only_listening) {
            rest.push(lines[lines.len() - 1])
        } else {
            rest
        }
    }
}

/// The kept lines of a single-port listing output, with the listening
/// filter on: what a kill-by-port attempt selects its target from.
pub open spec fn body_of_output_kept(output: Seq<char>) -> Seq<Seq<char>> {
    kept_fixed(body_of(split_lines(output)), true)
}

/// A line of an all-ports listing is kept when it is well-formed and its
/// descriptor yields a port.
pub open spec fn keep_all(l: Seq<char>) -> bool {
    line_well_formed(l) && line_port(l) is Some
}

/// The kept lines of an all-ports listing, in order.
pub open spec fn kept_all(lines: Seq<Seq<char>>) -> Seq<Seq<char>>
    decreases lines.len(),
{
    if lines.len() == 0 {
        Seq::empty()
    } else {
        let rest = kept_all(lines.subrange(0, lines.len() - 1));
        if keep_all(lines[lines.len() - 1]) {
            rest.push(lines[lines.len() - 1])
        } else {
            rest
        }
    }
}

/// Every kept line of a single-port listing passes the keep test.
pub proof fn lemma_kept_fixed_all(lines: Seq<Seq<char>>, only_listening: bool)
    ensures
        forall|i: int|
            0 <= i < kept_fixed(lines, only_listening).len() ==> keep_fixed(
                #[trigger] kept_fixed(lines, only_listening)[i],
                only_listening,
            ),
    decreases lines.len(),
{
    if lines.len() == 0 {
    } else {
        let pre = lines.subrange(0, lines.len() - 1);
        lemma_kept_fixed_all(pre, only_listening);
        let rest = kept_fixed(pre, only_listening);
        let ks = kept_fixed(lines, only_listening);
        assert forall|i: int| 0 <= i < ks.len() implies keep_fixed(ks[i], only_listening) by {
            if i < rest.len() {
                assert(ks[i] == rest[i]);
            } else {
                assert(ks[i] == lines[lines.len() - 1]);
            }
        }
    }
}

/// The fields a record shares with its line in either listing mode. The
/// process name, executable path, and source come from separate, fresh
/// process-table lookups, so only the shape of the source is stated.
pub open spec fn record_from_line(p: PortInfo, l: Seq<char>) -> bool {
    &&& line_pid(l) == Some(p.pid)
    &&& p.user@ == line_user(l)
    &&& p.protocol@ == line_protocol(l)
    &&& p.remarks@ == line_remarks(l)
    &&& is_source_label(p.source@)
}

/// Assembles one record from the parsed line parts and the process-table
/// answers, for every value the table may have returned.
pub fn build_port_info(
    port: u16,
    pid: u32,
    user: String,
    listening: bool,
    udp: bool,
    meta: Option<ProcMeta>,
    source: String,
) -> (r: PortInfo)
    ensures
        r.port == port,
        r.pid == pid,
        r.user == user,
        r.source == source,
        r.remarks@ == (if listening {
            "LISTENING"@
        } else {
            "CONNECTED"@
        }),
        r.protocol@ == (if !listening && udp {
            "udp"@
        } else {
            "tcp"@
        }),
        meta matches Some(m) ==> r.process_name == m.name && r.exe_path == m.exe_path,
        meta is None ==> r.process_name@ == "unknown"@ && r.exe_path@ == Seq::<char>::empty(),
{
    let (process_name, exe_path) = match meta {
        Some(m) => (m.name, m.exe_path),
        None => (String::from_str("unknown"), String::new()),
    };
    let protocol = if listening {
        String::from_str("tcp")
    } else if udp {
        String::from_str("udp")
    } else {
        String::from_str("tcp")
    };
    let remarks = if listening {
        String::from_str("LISTENING")
    } else {
        String::from_str("CONNECTED")
    };
    PortInfo { port, protocol, pid, process_name, exe_path, user, source, remarks }
}

/// Parses one port's listing output. Produces exactly one record per kept
/// line, in order; with the listening filter on, no record's remarks are
/// anything but LISTENING.
pub fn list_ports_from_output(port: u16, output: &str, only_listening: bool) -> (r: Vec<PortInfo>)
    ensures
        ({
            let ks = kept_fixed(body_of(split_lines(output@)), only_listening);
            &&& r@.len() == ks.len()
            &&& forall|i: int|
                0 <= i < ks.len() ==> record_from_line(#[trigger] r@[i], ks[i]) && r@[i].port
                    == port
        }),
        only_listening ==> forall|i: int|
            0 <= i < r@.len() ==> (#[trigger] r@[i]).remarks@ == "LISTENING"@,
{
    let lines = to_lines(output);
    let mut r: Vec<PortInfo> = Vec::new();
    let ghost bl = views_of(lines@);
    if lines.len() == 0 {
        proof {
            lemma_kept_fixed_all(body_of(split_lines(output@)), only_listening);
        }
        return r;
    }
    let mut i: usize = 1;
    proof {
        assert(bl.subrange(1, 1) =~= Seq::<Seq<char>>::empty());
    }
    while i < lines.len()
        invariant
            bl == views_of(lines@),
            views_of(lines@) == split_lines(output@),
            1 <= i <= lines@.len(),
            r@.len() == kept_fixed(bl.subrange(1, i as int), only_listening).len(),
            forall|k: int|
                0 <= k < r@.len() ==> record_from_line(
                    #[trigger] r@[k],
                    kept_fixed(bl.subrange(1, i as int), only_listening)[k],
                ) && r@[k].port == port,
        decreases lines@.len() - i,
    {
        let ghost prev = bl.subrange(1, i as int);
        let ghost cur = bl.subrange(1, i + 1);
        proof {
            assert(cur.subrange(0, cur.len() - 1) =~= prev);
            assert(cur[cur.len() - 1] == bl[i as int]);
        }
        let line = &lines[i];
        let fields = split_fields(line.as_str());
        let ghost fl = split_ws(line@);
        proof {
            assert(fields@.len() == fl.len());
            assert(line@ == bl[i as int]);
        }
        if fields.len() >= 9 {
            proof {
                assert(fields@[1]@ == fl[1]);
                assert(fields@[2]@ == fl[2]);
            }
            if let Some(pid) = parse_u32(fields[1].as_str()) {
                let desc = join_from(&fields, 8);
                proof {
                    assert(views_of(fields@).subrange(8, fields@.len() as int) =~= fl.subrange(
                        8,
                        fl.len() as int,
                    ));
                }
                let listening = find_substr(desc.as_str(), "(LISTEN)");
                let udp = find_substr(desc.as_str(), "UDP");
                if !only_listening || listening {
                    let meta = sys::query_process(pid);
                    let source = detect_source(pid);
                    let user = fields[2].clone();
                    let info = build_port_info(port, pid, user, listening, udp, meta, source);
                    r.push(info);
                }
            }
        }
        i += 1;
    }
    proof {
        assert(bl.subrange(1, lines@.len() as int) =~= body_of(split_lines(output@)));
        if only_listening {
            lemma_kept_fixed_all(body_of(split_lines(output@)), only_listening);
        }
    }
    r
}

/// Parses an all-ports listing. The port of each record comes from the
/// line's own descriptor; a line whose descriptor yields no port is
/// skipped entirely. Both listening and connected sockets are returned:
/// this mode exposes no listening filter.
pub fn list_all_ports_from_output(output: &str) -> (r: Vec<PortInfo>)
    ensures
        ({
            let ks = kept_all(body_of(split_lines(output@)));
            &&& r@.len() == ks.len()
            &&& forall|i: int|
                0 <= i < ks.len() ==> record_from_line(#[trigger] r@[i], ks[i]) && line_port(
                    ks[i],
                ) == Some(r@[i].port)
        }),
{
    let lines = to_lines(output);
    let mut r: Vec<PortInfo> = Vec::new();
    let ghost bl = views_of(lines@);
    if lines.len() == 0 {
        return r;
    }
    let mut i: usize = 1;
    proof {
        assert(bl.subrange(1, 1) =~= Seq::<Seq<char>>::empty());
    }
    while i < lines.len()
        invariant
            bl == views_of(lines@),
            views_of(lines@) == split_lines(output@),
            1 <= i <= lines@.len(),
            r@.len() == kept_all(bl.subrange(1, i as int)).len(),
            forall|k: int|
                0 <= k < r@.len() ==> record_from_line(
                    #[trigger] r@[k],
                    kept_all(bl.subrange(1, i as int))[k],
                ) && line_port(kept_all(bl.subrange(1, i as int))[k]) == Some(r@[k].port),
        decreases lines@.len() - i,
    {
        let ghost prev = bl.subrange(1, i as int);
        let ghost cur = bl.subrange(1, i + 1);
        proof {
            assert(cur.subrange(0, cur.len() - 1) =~= prev);
            assert(cur[cur.len() - 1] == bl[i as int]);
        }
        let line = &lines[i];
        let fields = split_fields(line.as_str());
        let ghost fl = split_ws(line@);
        proof {
            assert(fields@.len() == fl.len());
            assert(line@ == bl[i as int]);
        }
        if fields.len() >= 9 {
            proof {
                assert(fields@[1]@ == fl[1]);
                assert(fields@[2]@ == fl[2]);
            }
            if let Some(pid) = parse_u32(fields[1].as_str()) {
                let desc = join_from(&fields, 8);
                proof {
                    assert(views_of(fields@).subrange(8, fields@.len() as int) =~= fl.subrange(
                        8,
                        fl.len() as int,
                    ));
                }
                let tail = suffix_after_last_colon(desc.as_str());
                let tok = prefix_before_space(tail.as_str());
                if let Some(port) = parse_u16(tok.as_str()) {
                    let listening = find_substr(desc.as_str(), "(LISTEN)");
                    let udp = find_substr(desc.as_str(), "UDP");
                    let meta = sys::query_process(pid);
                    let source = detect_source(pid);
                    let user = fields[2].clone();
                    let info = build_port_info(port, pid, user, listening, udp, meta, source);
                    r.push(info);
                }
            }
        }
        i += 1;
    }
    proof {
        assert(bl.subrange(1, lines@.len() as int) =~= body_of(split_lines(output@)));
    }
    r
}

/// One port's listing request together with the listing tool's output for
/// it; a tool that could not be run degrades to an empty output, never to
/// an error.
pub struct PortScan {
    pub port: u16,
    pub output: String,
}

/// The kept lines of one scan.
pub open spec fn scan_kept(s: PortScan, only_listening: bool) -> Seq<Seq<char>> {
    kept_fixed(body_of(split_lines(s.output@)), only_listening)
}

/// The ports and kept lines of a sequence of scans, flattened in order.
pub open spec fn scans_kept(scans: Seq<PortScan>, only_listening: bool) -> Seq<(u16, Seq<char>)>
    decreases scans.len(),
{
    if scans.len() == 0 {
        Seq::empty()
    } else {
        scans_kept(scans.subrange(0, scans.len() - 1), only_listening) + scan_kept(
            scans[scans.len() - 1],
            only_listening,
        ).map_values(|l: Seq<char>| (scans[scans.len() - 1].port, l))
    }
}

/// Lists the requested ports: one listing-tool output per requested port,
/// parsed in order, the records concatenated. Exactly one record per kept
/// line; with the listening filter on, every record's remarks are
/// LISTENING.
pub fn list_ports(scans: &Vec<PortScan>, only_listening: bool) -> (r: Vec<PortInfo>)
    ensures
        ({
            let ks = scans_kept(scans@, only_listening);
            &&& r@.len() == ks.len()
            &&& forall|i: int|
                0 <= i < ks.len() ==> record_from_line(#[trigger] r@[i], ks[i].1) && r@[i].port
                    == ks[i].0
        }),
        only_listening ==> forall|i: int|
            0 <= i < r@.len() ==> (#[trigger] r@[i]).remarks@ == "LISTENING"@,
{
    let mut r: Vec<PortInfo> = Vec::new();
    let mut i: usize = 0;
    proof {
        assert(scans@.subrange(0, 0) =~= Seq::<PortScan>::empty());
    }
    while i < scans.len()
        invariant
            i <= scans@.len(),
            r@.len() == scans_kept(scans@.subrange(0, i as int), only_listening).len(),
            forall|k: int|
                0 <= k < r@.len() ==> record_from_line(
                    #[trigger] r@[k],
                    scans_kept(scans@.subrange(0, i as int), only_listening)[k].1,
                ) && r@[k].port == scans_kept(scans@.subrange(0, i as int), only_listening)[k].0,
            only_listening ==> forall|k: int|
                0 <= k < r@.len() ==> (#[trigger] r@[k]).remarks@ == "LISTENING"@,
        decreases scans@.len() - i,
    {
        let ghost prevs = scans@.subrange(0, i as int);
        let ghost curs = scans@.subrange(0, i + 1);
        proof {
            assert(curs.subrange(0, curs.len() - 1) =~= prevs);
            assert(curs[curs.len() - 1] == scans@[i as int]);
        }
        let mut part = list_ports_from_output(scans[i].port, scans[i].output.as_str(), only_listening);
        let ghost partg = part@;
        proof {
            let sk = scan_kept(scans@[i as int], only_listening);
            let mapped = sk.map_values(|l: Seq<char>| (scans@[i as int].port, l));
            assert(mapped.len() == sk.len());
            assert forall|k: int| 0 <= k < partg.len() implies record_from_line(
                #[trigger] partg[k],
                mapped[k].1,
            ) && partg[k].port == mapped[k].0 by {
                assert(mapped[k].1 == sk[k]);
                assert(mapped[k].0 == scans@[i as int].port);
            }
        }
        r.append(&mut part);
        i += 1;
    }
    proof {
        assert(scans@.subrange(0, scans@.len() as int) =~= scans@);
    }
    r
}

} // verus!
