//! The terminal client: its options, the commands typed at its prompt, and
//! the text it prints for engine events.
use vstd::prelude::*;
use crate::numfmt::{dec_repr, digit_char, digit_to_char, int_repr, parse_uint, parse_uint_chars, push_dec, push_i64};
use crate::text::{chars_of, is_ws, is_whitespace_char, push_char, push_chars, push_str, string_from_chars};
use crate::network::transfer::{progress_percent_text, push_progress_percent};
use crate::types::{status_name, CoreCommand, CoreEvent, EventModel, TransferStatus};

verus! {

/// The options of the terminal client.
#[derive(Debug, Clone)]
pub struct CliArgs {
    /// The address to bind.
    pub ip: String,
    /// The first port to try.
    pub port: u16,
    /// The path of the store.
    pub db: String,
    /// The user name to announce.
    pub username: Option<String>,
    /// The host name to announce.
    pub hostname: Option<String>,
    /// Print the traffic counters and exit.
    pub stats: bool,
}

/// The first name that is given: the option, then each environment
/// variable in turn, then `fallback`.
pub fn resolve_name(given: Option<String>, first_env: Option<String>, second_env: Option<String>, fallback: &str) -> (res: String)
    ensures
        res@ == match given {
            Some(g) => g@,
            None => match first_env {
                Some(e) => e@,
                None => match second_env {
                    Some(e) => e@,
                    None => fallback@,
                },
            },
        },
{
    match given {
        Some(g) => g,
        None => match first_env {
            Some(e) => e,
            None => match second_env {
                Some(e) => e,
                None => String::from_str(fallback),
            },
        },
    }
}

/// The words of `s`: its maximal runs of non-whitespace characters, in
/// order (`split_whitespace`).
pub open spec fn words(s: Seq<char>) -> Seq<Seq<char>>
    decreases s.len(),
{
    if s.len() == 0 {
        seq![]
    } else if is_ws(s.last()) {
        words(s.drop_last())
    } else {
        let w = words(s.drop_last());
        if s.len() >= 2 && !is_ws(s[s.len() - 2]) {
            w.drop_last().push(w.last().push(s.last()))
        } else {
            w.push(seq![s.last()])
        }
    }
}

proof fn lemma_words_nonempty(s: Seq<char>)
    ensures
        s.len() > 0 && !is_ws(s.last()) ==> words(s).len() > 0,
        s.len() > 0 && !is_ws(s.last()) ==> words(s).last().len() > 0,
    decreases s.len(),
{
    if s.len() >= 2 {
        lemma_words_nonempty(s.drop_last());
    }
}

/// The words of a line.
pub fn split_words(s: &str) -> (res: Vec<Vec<char>>)
    ensures
        res@.map_values(|w: Vec<char>| w@) == words(s@),
{
    let cs = chars_of(s);
    let mut res: Vec<Vec<char>> = Vec::new();
    let mut i: usize = 0;
    assert(cs@.take(0) =~= Seq::<char>::empty());
    assert(res@.map_values(|w: Vec<char>| w@) =~= words(Seq::<char>::empty()));
    while i < cs.len()
        invariant
            i <= cs@.len(),
            cs@ == s@,
            res@.map_values(|w: Vec<char>| w@) == words(cs@.take(i as int)),
        decreases cs@.len() - i,
    {
        let c = cs[i];
        let ghost t = cs@.take(i + 1);
        assert(t.drop_last() =~= cs@.take(i as int));
        assert(t.last() == c);
        if !is_whitespace_char(c) {
            if i >= 1 && !is_whitespace_char(cs[i - 1]) {
                proof {
                    assert(t[t.len() - 2] == cs@[i - 1]);
                    lemma_words_nonempty(cs@.take(i as int));
                    assert(cs@.take(i as int).last() == cs@[i - 1]);
                }
                let last = res.len() - 1;
                let ghost before = res@;
                let mut w = res.remove(last);
                w.push(c);
                res.push(w);
                proof {
                    assert(res@.map_values(|w: Vec<char>| w@) =~= before.map_values(|w: Vec<char>| w@).drop_last().push(
                        before.map_values(|w: Vec<char>| w@).last().push(c),
                    ));
                }
            } else {
                let mut w: Vec<char> = Vec::new();
                w.push(c);
                let ghost before = res@;
                res.push(w);
                proof {
                    if i >= 1 {
                        assert(t[t.len() - 2] == cs@[i - 1]);
                    }
                    assert(res@.map_values(|w: Vec<char>| w@) =~= before.map_values(|w: Vec<char>| w@).push(seq![c]));
                }
            }
        }
        i = i + 1;
    }
    assert(cs@.take(cs@.len() as int) =~= cs@);
    res
}

/// What the user typed at the prompt.
#[derive(Debug)]
pub enum CliInput {
    /// A blank line.
    Empty,
    Help,
    Stats,
    Peers,
    Exit,
    /// A command for the engine.
    Run(CoreCommand),
    /// A known command with too few arguments: its usage line.
    Usage(String),
    /// An unknown command word.
    Unknown(String),
}

/// The words joined by single spaces.
pub open spec fn joined(ws: Seq<Seq<char>>) -> Seq<char>
    decreases ws.len(),
{
    if ws.len() == 0 {
        seq![]
    } else if ws.len() == 1 {
        ws[0]
    } else {
        joined(ws.drop_last()) + seq![' '] + ws.last()
    }
}

/// A number argument as the client reads it: 0 when it is not a number of
/// the type.
pub open spec fn number_or_zero(s: Seq<char>, max: nat) -> nat {
    match parse_uint(s, 10, max) {
        Some(v) => v,
        None => 0,
    }
}

fn join_words(ws: &Vec<Vec<char>>, from: usize) -> (res: String)
    requires
        from < ws@.len(),
    ensures
        res@ == joined(ws@.map_values(|w: Vec<char>| w@).skip(from as int)),
{
    let ghost all = ws@.map_values(|w: Vec<char>| w@).skip(from as int);
    let mut out = string_from_chars(ws[from].as_slice());
    let n = ws.len();
    assert(from < n);
    let mut i = from + 1;
    assert(all.take(1) =~= seq![all[0]]);
    while i < ws.len()
        invariant
            from < i <= ws@.len(),
            all == ws@.map_values(|w: Vec<char>| w@).skip(from as int),
            out@ == joined(all.take(i - from)),
        decreases ws@.len() - i,
    {
        push_char(&mut out, ' ');
        push_chars(&mut out, ws[i].as_slice());
        proof {
            let k = i - from;
            assert(all.take(k + 1).drop_last() =~= all.take(k));
            assert(all.take(k + 1).last() == ws@[i as int]@);
        }
        i = i + 1;
    }
    assert(all.take(ws@.len() - from) =~= all);
    out
}

fn num_arg(w: &Vec<char>, max: u64) -> (res: u64)
    requires
        max >= 1,
    ensures
        res as nat == number_or_zero(w@, max as nat),
{
    match parse_uint_chars(w.as_slice(), 10, max) {
        Some(v) => v,
        None => 0,
    }
}

/// Reads a line typed at the prompt: `help`/`?`, `stats`, `peers`,
/// `exit`/`quit`, `scan SUBNET`, `send IP TEXT...`, `share IP PATH...`,
/// `download IP PACKET_NO FILE_ID NAME SIZE` (numbers that do not read are
/// 0), a usage line when arguments are missing, or an unknown word.
pub fn parse_cli_line(line: &str) -> (res: CliInput)
    ensures
        ({
            let ws = words(line@);
            if ws.len() == 0 {
                res is Empty
            } else {
                let c = ws[0];
                if c == "help"@ || c == "?"@ {
                    res is Help
                } else if c == "stats"@ {
                    res is Stats
                } else if c == "peers"@ {
                    res is Peers
                } else if c == "exit"@ || c == "quit"@ {
                    res is Exit
                } else if c == "scan"@ {
                    if ws.len() < 2 {
                        res matches CliInput::Usage(u) && u@ == "Usage: scan <subnet> (e.g. scan 192.168.1)"@
                    } else {
                        res matches CliInput::Run(CoreCommand::ScanSubnet { subnet }) && subnet@ == ws[1]
                    }
                } else if c == "send"@ {
                    if ws.len() < 3 {
                        res matches CliInput::Usage(u) && u@ == "Usage: send <ip> <message_body...>"@
                    } else {
                        res matches CliInput::Run(CoreCommand::SendMessage { to_ip, content })
                            && to_ip@ == ws[1] && content@ == joined(ws.skip(2))
                    }
                } else if c == "share"@ {
                    if ws.len() < 3 {
                        res matches CliInput::Usage(u) && u@ == "Usage: share <ip> <file_path>"@
                    } else {
                        res matches CliInput::Run(CoreCommand::ShareFile { peer_ip, path })
                            && peer_ip@ == ws[1] && path@ == joined(ws.skip(2))
                    }
                } else if c == "download"@ {
                    if ws.len() < 6 {
                        res matches CliInput::Usage(u) && u@
                            == "Usage: download <ip> <packet_no> <file_id> <file_name> <file_size>"@
                    } else {
                        res matches CliInput::Run(
                            CoreCommand::DownloadFile { peer_ip, packet_no, file_id, name, size },
                        ) && peer_ip@ == ws[1] && packet_no == number_or_zero(ws[2], u32::MAX as nat)
                            && file_id == number_or_zero(ws[3], u32::MAX as nat) && name@ == ws[4]
                            && size == number_or_zero(ws[5], u64::MAX as nat)
                    }
                } else {
                    res matches CliInput::Unknown(w) && w@ == c
                }
            }
        }),
{
    let ws = split_words(line);
    let ghost wv = ws@.map_values(|w: Vec<char>| w@);
    if ws.len() == 0 {
        return CliInput::Empty;
    }
    assert(wv[0] == ws@[0]@);
    let c = string_from_chars(ws[0].as_slice());
    if c == String::from_str("help") || c == String::from_str("?") {
        return CliInput::Help;
    }
    if c == String::from_str("stats") {
        return CliInput::Stats;
    }
    if c == String::from_str("peers") {
        return CliInput::Peers;
    }
    if c == String::from_str("exit") || c == String::from_str("quit") {
        return CliInput::Exit;
    }
    if c == String::from_str("scan") {
        if ws.len() < 2 {
            return CliInput::Usage(String::from_str("Usage: scan <subnet> (e.g. scan 192.168.1)"));
        }
        assert(wv[1] == ws@[1]@);
        return CliInput::Run(CoreCommand::ScanSubnet { subnet: string_from_chars(ws[1].as_slice()) });
    }
    if c == String::from_str("send") {
        if ws.len() < 3 {
            return CliInput::Usage(String::from_str("Usage: send <ip> <message_body...>"));
        }
        assert(wv[1] == ws@[1]@);
        return CliInput::Run(
            CoreCommand::SendMessage {
                to_ip: string_from_chars(ws[1].as_slice()),
                content: join_words(&ws, 2),
            },
        );
    }
    if c == String::from_str("share") {
        if ws.len() < 3 {
            return CliInput::Usage(String::from_str("Usage: share <ip> <file_path>"));
        }
        assert(wv[1] == ws@[1]@);
        return CliInput::Run(
            CoreCommand::ShareFile { peer_ip: string_from_chars(ws[1].as_slice()), path: join_words(&ws, 2) },
        );
    }
    if c == String::from_str("download") {
        if ws.len() < 6 {
            return CliInput::Usage(
                String::from_str("Usage: download <ip> <packet_no> <file_id> <file_name> <file_size>"),
            );
        }
        assert(wv[1] == ws@[1]@);
        assert(wv[2] == ws@[2]@);
        assert(wv[3] == ws@[3]@);
        assert(wv[4] == ws@[4]@);
        assert(wv[5] == ws@[5]@);
        let packet_no = num_arg(&ws[2], 0xFFFF_FFFF) as u32;
        let file_id = num_arg(&ws[3], 0xFFFF_FFFF) as u32;
        let size = num_arg(&ws[5], 0xFFFF_FFFF_FFFF_FFFF);
        return CliInput::Run(
            CoreCommand::DownloadFile {
                peer_ip: string_from_chars(ws[1].as_slice()),
                packet_no,
                file_id,
                name: string_from_chars(ws[4].as_slice()),
                size,
            },
        );
    }
    CliInput::Unknown(c)
}


/// The name printed for a progress status.
fn status_text(s: TransferStatus) -> (res: &'static str)
    ensures
        res@ == status_name(s),
{
    s.as_str()
}

/// The line printed for one offered file.
pub open spec fn file_line(f: crate::types::AttachmentModel, packet_no: u32) -> Seq<char> {
    "  - Name: "@ + f.name + ", Size: "@ + dec_repr(f.size as nat) + ", ID: "@ + dec_repr(f.id as nat)
        + ", Packet No: "@ + dec_repr(packet_no as nat)
}

/// The lines that the terminal client prints for an event (each line is
/// printed with a newline after it).
pub open spec fn event_lines(e: EventModel) -> Seq<Seq<char>> {
    match e {
        EventModel::PeerStatusChanged { ip, username, online, .. } => seq![
            "\n[EVENT] Peer status: "@ + username + " ("@ + ip + ") is "@ + if online {
                "ONLINE"@
            } else {
                "OFFLINE"@
            },
        ],
        EventModel::MessageReceived { sender_ip, content, username, .. } => seq![
            "\n[MSG] From "@ + username + " ("@ + sender_ip + "): "@ + content,
        ],
        EventModel::FileAttachmentsReceived { sender_ip, packet_no, files } => seq![
            "\n[FILE RECEIVED] From "@ + sender_ip + ":"@,
        ] + files.map_values(|f: crate::types::AttachmentModel| file_line(f, packet_no)) + seq![
            "  To download, type: download "@ + sender_ip + " "@ + dec_repr(packet_no as nat)
                + " <file_id> <file_name> <file_size>"@,
        ],
        EventModel::WindowKnock { sender_ip, username } => seq![
            "\n[KNOCK] Screen Knock from "@ + username + " ("@ + sender_ip + ")!"@,
        ],
        EventModel::PeerTyping { sender_ip, typing } => if typing {
            seq!["\n[EVENT] "@ + sender_ip + " is typing..."@]
        } else {
            seq![]
        },
        EventModel::TransferProgress { task_id, progress, status } => seq![
            "\n[EVENT] Task "@ + int_repr(task_id as int) + ": Progress "@ + progress_percent_text(progress)
                + "% ["@ + status_name(status) + "]"@,
        ],
        EventModel::TransferStarted { task_id, peer_ip, file_name, file_size, is_sending } => seq![
            "\n[EVENT] Task "@ + int_repr(task_id as int) + ": Started "@ + if is_sending {
                "sending"@
            } else {
                "receiving"@
            } + " file '"@ + file_name + "' ("@ + int_repr(file_size as int) + " bytes) with "@
                + peer_ip,
        ],
    }
}

/// The lines that the terminal client prints for an event (`render_event`
/// without the printing).
pub fn render_event_lines(event: &CoreEvent) -> (res: Vec<String>)
    ensures
        res@.map_values(|l: String| l@) == event_lines(event@),
{
    let mut lines: Vec<String> = Vec::new();
    match event {
        CoreEvent::PeerStatusChanged { ip, username, online, .. } => {
            let mut l = String::new();
            push_str(&mut l, "\n[EVENT] Peer status: ");
            push_str(&mut l, username.as_str());
            push_str(&mut l, " (");
            push_str(&mut l, ip.as_str());
            push_str(&mut l, ") is ");
            push_str(&mut l, if *online { "ONLINE" } else { "OFFLINE" });
            lines.push(l);
            assert(lines@.map_values(|l: String| l@) =~= event_lines(event@));
        },
        CoreEvent::MessageReceived { sender_ip, content, username, .. } => {
            let mut l = String::new();
            push_str(&mut l, "\n[MSG] From ");
            push_str(&mut l, username.as_str());
            push_str(&mut l, " (");
            push_str(&mut l, sender_ip.as_str());
            push_str(&mut l, "): ");
            push_str(&mut l, content.as_str());
            lines.push(l);
            assert(lines@.map_values(|l: String| l@) =~= event_lines(event@));
        },
        CoreEvent::FileAttachmentsReceived { sender_ip, packet_no, files } => {
            let mut head = String::new();
            push_str(&mut head, "\n[FILE RECEIVED] From ");
            push_str(&mut head, sender_ip.as_str());
            push_str(&mut head, ":");
            lines.push(head);
            let ghost fv = files@.map_values(|a: crate::types::FileAttachment| a@);
            let mut k: usize = 0;
            while k < files.len()
                invariant
                    k <= files@.len(),
                    fv == files@.map_values(|a: crate::types::FileAttachment| a@),
                    lines@.len() == k + 1,
                    lines@[0]@ == "\n[FILE RECEIVED] From "@ + sender_ip@ + ":"@,
                    forall|j: int| 1 <= j <= k ==> #[trigger] lines@[j]@ == file_line(fv[j - 1], *packet_no),
                decreases files@.len() - k,
            {
                let f = &files[k];
                let mut l = String::new();
                push_str(&mut l, "  - Name: ");
                push_str(&mut l, f.name.as_str());
                push_str(&mut l, ", Size: ");
                push_dec(&mut l, f.size);
                push_str(&mut l, ", ID: ");
                push_dec(&mut l, f.id as u64);
                push_str(&mut l, ", Packet No: ");
                push_dec(&mut l, *packet_no as u64);
                assert(fv[k as int] == f@);
                assert(l@ =~= file_line(fv[k as int], *packet_no));
                let ghost before = lines@;
                lines.push(l);
                assert(forall|j: int| 0 <= j <= k ==> lines@[j] == before[j]);
                k = k + 1;
            }
            let mut tail = String::new();
            push_str(&mut tail, "  To download, type: download ");
            push_str(&mut tail, sender_ip.as_str());
            push_str(&mut tail, " ");
            push_dec(&mut tail, *packet_no as u64);
            push_str(&mut tail, " <file_id> <file_name> <file_size>");
            lines.push(tail);
            assert(lines@.map_values(|l: String| l@) =~= event_lines(event@));
        },
        CoreEvent::WindowKnock { sender_ip, username } => {
            let mut l = String::new();
            push_str(&mut l, "\n[KNOCK] Screen Knock from ");
            push_str(&mut l, username.as_str());
            push_str(&mut l, " (");
            push_str(&mut l, sender_ip.as_str());
            push_str(&mut l, ")!");
            lines.push(l);
            assert(lines@.map_values(|l: String| l@) =~= event_lines(event@));
        },
        CoreEvent::PeerTyping { sender_ip, typing } => {
            if *typing {
                let mut l = String::new();
                push_str(&mut l, "\n[EVENT] ");
                push_str(&mut l, sender_ip.as_str());
                push_str(&mut l, " is typing...");
                lines.push(l);
            }
            assert(lines@.map_values(|l: String| l@) =~= event_lines(event@));
        },
        CoreEvent::TransferProgress { task_id, progress, status } => {
            let mut l = String::new();
            push_str(&mut l, "\n[EVENT] Task ");
            push_i64(&mut l, *task_id);
            push_str(&mut l, ": Progress ");
            push_progress_percent(&mut l, *progress);
            push_str(&mut l, "% [");
            push_str(&mut l, status_text(*status));
            push_str(&mut l, "]");
            assert(l@ =~= event_lines(event@)[0]);
            lines.push(l);
            assert(lines@.map_values(|l: String| l@) =~= event_lines(event@));
        },
        CoreEvent::TransferStarted { task_id, peer_ip, file_name, file_size, is_sending } => {
            let mut l = String::new();
            push_str(&mut l, "\n[EVENT] Task ");
            push_i64(&mut l, *task_id);
            push_str(&mut l, ": Started ");
            push_str(&mut l, if *is_sending { "sending" } else { "receiving" });
            push_str(&mut l, " file '");
            push_str(&mut l, file_name.as_str());
            push_str(&mut l, "' (");
            push_i64(&mut l, *file_size);
            push_str(&mut l, " bytes) with ");
            push_str(&mut l, peer_ip.as_str());
            lines.push(l);
            assert(lines@.map_values(|l: String| l@) =~= event_lines(event@));
        },
    }
    lines
}

} // verus!
