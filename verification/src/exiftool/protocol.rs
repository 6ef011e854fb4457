//! The `-stay_open` protocol: each command is a list of argument lines ended
//! by `-execute####`, and ExifTool ends its answer with `{ready####}`.
use vstd::prelude::*;
use vstd::string::StringExecFns;
use crate::decimal::{
    all_digits, decimal, is_digit, lemma_decimal_reads_back, lemma_leading_zeros, parse_u32,
    parse_u32_spec, u32_zero_padded, zero_padded,
};
use crate::text::{
    has_prefix, skip_chars, starts_with, trim_end_char, trim_end_matching,
};

verus! {

/// The argument lines of a command, each followed by a newline.
pub open spec fn joined_lines(args: Seq<Seq<char>>) -> Seq<char>
    decreases args.len(),
{
    if args.len() == 0 {
        seq![]
    } else {
        joined_lines(args.drop_last()) + args.last() + seq!['\n']
    }
}

/// The four-digit (at least) sequence number of a command.
pub open spec fn sequence_digits(id: u32) -> Seq<char> {
    zero_padded(decimal(id as nat), 4)
}

/// The text sent to ExifTool for one command: the arguments, one per line,
/// then `-execute` and the sequence number.
pub open spec fn command_text_spec(args: Seq<Seq<char>>, id: u32) -> Seq<char> {
    joined_lines(args) + "-execute"@ + sequence_digits(id) + seq!['\n']
}

/// The line with which ExifTool ends its answer to command `id`.
pub open spec fn ready_line(id: u32) -> Seq<char> {
    "{ready"@ + sequence_digits(id) + "}"@
}

/// Whether a line is an end-of-answer marker.
pub open spec fn is_marker(line: Seq<char>) -> bool {
    starts_with(line, "{ready"@)
}

/// The sequence number that a marker line announces, if it can be read.
pub open spec fn marker_id(line: Seq<char>) -> Option<u32> {
    parse_u32_spec(trim_end_char(line.skip("{ready"@.len() as int), '}'))
}

/// What reading one answer line does to the buffered answer text: a marker
/// with a readable number hands the buffer over and empties it; a marker
/// without one is dropped; any other line is buffered with its newline.
pub open spec fn feed_spec(buf: Seq<char>, line: Seq<char>) -> (Seq<char>, Option<(u32, Seq<char>)>) {
    if is_marker(line) {
        match marker_id(line) {
            Some(id) => (seq![], Some((id, buf))),
            None => (buf, None),
        }
    } else {
        (buf + line + seq!['\n'], None)
    }
}

/// The buffer after reading `lines` from `buf`, when none of them is a marker.
pub open spec fn buffered(buf: Seq<char>, lines: Seq<Seq<char>>) -> Seq<char>
    decreases lines.len(),
{
    if lines.len() == 0 {
        buf
    } else {
        feed_spec(buffered(buf, lines.drop_last()), lines.last()).0
    }
}

/// Builds the text of one command.
pub fn command_text(args: &Vec<String>, id: u32) -> (r: String)
    ensures
        r@ == command_text_spec(args@.map_values(|a: String| a@), id),
{
    let ghost views = args@.map_values(|a: String| a@);
    let mut out = String::new();
    let mut i: usize = 0;
    while i < args.len()
        invariant
            i <= args.len(),
            views == args@.map_values(|a: String| a@),
            out@ == joined_lines(views.take(i as int)),
        decreases args.len() - i,
    {
        assert(views.take(i + 1).drop_last() =~= views.take(i as int));
        out.append(args[i].as_str());
        out.append("\n");
        proof {
            reveal_strlit("\n");
        }
        i = i + 1;
    }
    assert(views.take(i as int) =~= views);
    let digits = u32_zero_padded(id, 4);
    out.append("-execute");
    out.append(digits.as_str());
    out.append("\n");
    proof {
        reveal_strlit("\n");
    }
    out
}

/// The sequence number announced by a marker line, if the line is a marker
/// and its number can be read.
pub fn parse_ready_marker(line: &str) -> (r: Option<u32>)
    ensures
        r == (if is_marker(line@) {
            marker_id(line@)
        } else {
            None
        }),
{
    let prefix = "{ready";
    if !has_prefix(line, prefix) {
        return None;
    }
    proof {
        reveal_strlit("{ready");
    }
    let rest = skip_chars(line, 6);
    let digits = trim_end_matching(rest.as_str(), '}');
    parse_u32(digits.as_str())
}

/// Collects ExifTool's answer lines until the marker that ends an answer.
pub struct ResponseAssembler {
    buf: String,
}

impl ResponseAssembler {
    /// The answer text buffered so far.
    pub closed spec fn buffer(&self) -> Seq<char> {
        self.buf@
    }

    /// An assembler with nothing buffered.
    pub fn new() -> (r: Self)
        ensures
            r.buffer() == Seq::<char>::empty(),
    {
        ResponseAssembler { buf: String::new() }
    }

    /// Reads one line of ExifTool's output; returns the sequence number and
    /// the full answer text when the line ends an answer.
    pub fn feed(&mut self, line: &str) -> (r: Option<(u32, String)>)
        ensures
            final(self).buffer() == feed_spec(old(self).buffer(), line@).0,
            r matches Some((id, text)) ==> feed_spec(old(self).buffer(), line@).1 == Some(
                (id, text@),
            ),
            r is None ==> feed_spec(old(self).buffer(), line@).1 is None,
    {
        if has_prefix(line, "{ready") {
            match parse_ready_marker(line) {
                Some(id) => {
                    let mut out = String::new();
                    std::mem::swap(&mut out, &mut self.buf);
                    Some((id, out))
                },
                None => None,
            }
        } else {
            self.buf.append(line);
            self.buf.append("\n");
            proof {
                reveal_strlit("\n");
            }
            None
        }
    }
}

/// What the reader of ExifTool's output observed.
pub enum ReaderEvent {
    /// A line of output (without its line ending).
    Line(String),
    /// Reading failed: the process died.
    ReadError,
    /// The output ended.
    Closed,
}

/// What the reader must do next.
pub enum ReaderAction {
    /// Hand this answer to the caller waiting on this sequence number.
    Deliver(u32, String),
    /// Nothing to hand over yet.
    Continue,
    /// Fail every waiting caller with this message and stop reading.
    FailAll(String),
}

impl ResponseAssembler {
    /// Decides what follows an observation of ExifTool's output: lines are
    /// assembled into answers; a read error or the end of output fails every
    /// caller still waiting.
    pub fn on_event(&mut self, ev: ReaderEvent) -> (r: ReaderAction)
        ensures
            match ev {
                ReaderEvent::Line(line) => {
                    &&& final(self).buffer() == feed_spec(old(self).buffer(), line@).0
                    &&& match feed_spec(old(self).buffer(), line@).1 {
                        Some((id, text)) => r matches ReaderAction::Deliver(i, t) && i == id && t@
                            == text,
                        None => r is Continue,
                    }
                },
                ReaderEvent::ReadError => r matches ReaderAction::FailAll(m) && m@
                    == "ExifTool process exited unexpectedly"@ && final(self).buffer() == old(
                    self,
                ).buffer(),
                ReaderEvent::Closed => r matches ReaderAction::FailAll(m) && m@
                    == "ExifTool process exited"@ && final(self).buffer() == old(self).buffer(),
            },
    {
        match ev {
            ReaderEvent::Line(line) => match self.feed(line.as_str()) {
                Some((id, text)) => ReaderAction::Deliver(id, text),
                None => ReaderAction::Continue,
            },
            ReaderEvent::ReadError => {
                let m = "ExifTool process exited unexpectedly".to_owned();
                ReaderAction::FailAll(m)
            },
            ReaderEvent::Closed => {
                let m = "ExifTool process exited".to_owned();
                ReaderAction::FailAll(m)
            },
        }
    }
}

/// The arguments that ask ExifTool for every tag of a file as JSON.
pub fn extract_json_args(path: &str) -> (r: Vec<String>)
    ensures
        r@.map_values(|a: String| a@) == seq![path@, "-json"@, "-all:all"@, "-struct"@],
{
    let mut v: Vec<String> = Vec::new();
    v.push(path.to_owned());
    v.push("-json".to_owned());
    v.push("-all:all".to_owned());
    v.push("-struct".to_owned());
    assert(v@.map_values(|a: String| a@) =~= seq![path@, "-json"@, "-all:all"@, "-struct"@]);
    v
}

/// The arguments that write `tag_args` into a file in place, keeping its
/// modification time.
pub fn write_tag_args(path: &str, tag_args: &Vec<String>) -> (r: Vec<String>)
    ensures
        r@.map_values(|a: String| a@) == seq![path@, "-overwrite_original_in_place"@, "-preserve"@]
            + tag_args@.map_values(|a: String| a@),
{
    let mut v: Vec<String> = Vec::new();
    v.push(path.to_owned());
    v.push("-overwrite_original_in_place".to_owned());
    v.push("-preserve".to_owned());
    let ghost head = v@.map_values(|a: String| a@);
    assert(head =~= seq![path@, "-overwrite_original_in_place"@, "-preserve"@]);
    let mut i: usize = 0;
    while i < tag_args.len()
        invariant
            i <= tag_args.len(),
            v@.map_values(|a: String| a@) == head + tag_args@.map_values(|a: String| a@).take(
                i as int,
            ),
        decreases tag_args.len() - i,
    {
        let a = tag_args[i].as_str().to_owned();
        assert(a@ =~= tag_args@[i as int]@);
        let ghost before = v@.map_values(|a: String| a@);
        v.push(a);
        assert(v@.map_values(|a: String| a@) =~= before.push(a@));
        i = i + 1;
        assert(v@.map_values(|a: String| a@) =~= head + tag_args@.map_values(|a: String| a@).take(
            i as int,
        ));
    }
    assert(tag_args@.map_values(|a: String| a@).take(i as int) =~= tag_args@.map_values(
        |a: String| a@,
    ));
    v
}

/// The sequence number of a command reads back as itself.
proof fn lemma_sequence_digits_read_back(id: u32)
    ensures
        sequence_digits(id).len() >= 1,
        all_digits(sequence_digits(id)),
        sequence_digits(id)[0] != '+',
        sequence_digits(id).last() != '}',
        parse_u32_spec(sequence_digits(id)) == Some(id),
{
    let d = decimal(id as nat);
    lemma_decimal_reads_back(id as nat);
    let p = sequence_digits(id);
    if d.len() < 4 {
        lemma_leading_zeros((4 - d.len()) as nat, d);
    }
    assert(is_digit(p[0]));
    assert(is_digit(p[p.len() - 1]));
}

/// The marker with which ExifTool ends the answer to command `id` is read
/// back as the number `id`: a command and its answer are matched by number.
pub proof fn lemma_marker_round_trip(id: u32)
    ensures
        is_marker(ready_line(id)),
        marker_id(ready_line(id)) == Some(id),
{
    reveal_strlit("{ready");
    reveal_strlit("}");
    let p = sequence_digits(id);
    lemma_sequence_digits_read_back(id);
    let line = ready_line(id);
    assert(line.subrange(0, "{ready"@.len() as int) =~= "{ready"@);
    assert(line.skip("{ready"@.len() as int) =~= p.push('}'));
    assert(p.push('}').drop_last() =~= p);
    assert(trim_end_char(p.push('}'), '}') == trim_end_char(p, '}'));
    assert(trim_end_char(p, '}') == p);
}

/// Reading lines that are not markers, then the marker of command `id`,
/// hands over exactly those lines, each followed by a newline, as the answer
/// to command `id`, and leaves nothing buffered.
pub proof fn lemma_answer_is_lines_before_marker(lines: Seq<Seq<char>>, id: u32)
    requires
        forall|i: int| 0 <= i < lines.len() ==> !is_marker(#[trigger] lines[i]),
    ensures
        buffered(seq![], lines) == joined_lines(lines),
        feed_spec(buffered(seq![], lines), ready_line(id)) == (
            Seq::<char>::empty(),
            Some((id, joined_lines(lines))),
        ),
    decreases lines.len(),
{
    if lines.len() > 0 {
        let front = lines.drop_last();
        assert forall|i: int| 0 <= i < front.len() implies !is_marker(#[trigger] front[i]) by {
            assert(front[i] == lines[i]);
        }
        lemma_answer_is_lines_before_marker(front, id);
        assert(!is_marker(lines[lines.len() - 1]));
    }
    lemma_marker_round_trip(id);
}

} // verus!
