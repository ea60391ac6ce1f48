//! The persistence codec: each item is one line, `"TODO: "` plus its text
//! for a pending item, `"DONE: "` plus its text for a completed one. A
//! document is all pending lines in list order, then all completed lines
//! in list order. Any other line is a format error that names its 1-based
//! line number.

use vstd::prelude::*;

verus! {

/// Which of the two lists an item belongs to.
#[derive(Clone, Copy, Debug, PartialEq, Eq, Structural)]
pub enum Status {
    Todo,
    Done,
}

impl Status {
    /// The other status.
    pub fn toggle(&self) -> (r: Self)
        ensures
            r == (match *self {
                Status::Todo => Status::Done,
                Status::Done => Status::Todo,
            }),
    {
        match self {
            Status::Todo => Status::Done,
            Status::Done => Status::Todo,
        }
    }
}

/// The six-character line prefix that marks an item of status `st`.
pub open spec fn status_prefix(st: Status) -> Seq<char> {
    match st {
        Status::Todo => seq!['T', 'O', 'D', 'O', ':', ' '],
        Status::Done => seq!['D', 'O', 'N', 'E', ':', ' '],
    }
}

/// The line that stores an item of status `st` with text `text`.
pub open spec fn encode_line(st: Status, text: Seq<char>) -> Seq<char> {
    status_prefix(st) + text
}

/// What one stored line means: the status named by its prefix and the
/// text after it, or nothing if neither prefix is there.
pub open spec fn parse_line(line: Seq<char>) -> Option<(Status, Seq<char>)> {
    if line.len() >= 6 && line.take(6) == status_prefix(Status::Todo) {
        Some((Status::Todo, line.skip(6)))
    } else if line.len() >= 6 && line.take(6) == status_prefix(Status::Done) {
        Some((Status::Done, line.skip(6)))
    } else {
        None
    }
}

/// The six prefix characters of status `st`, in order.
fn prefix_chars(st: Status) -> (r: (char, char, char, char, char, char))
    ensures
        seq![r.0, r.1, r.2, r.3, r.4, r.5] == status_prefix(st),
{
    match st {
        Status::Todo => ('T', 'O', 'D', 'O', ':', ' '),
        Status::Done => ('D', 'O', 'N', 'E', ':', ' '),
    }
}

/// Whether `line` starts with the six-character prefix of status `st`.
fn line_has_prefix(line: &str, st: Status) -> (b: bool)
    ensures
        b == (line@.len() >= 6 && line@.take(6) == status_prefix(st)),
{
    let n = line.unicode_len();
    if n < 6 {
        return false;
    }
    let p = prefix_chars(st);
    let b = line.get_char(0) == p.0 && line.get_char(1) == p.1 && line.get_char(2) == p.2
        && line.get_char(3) == p.3 && line.get_char(4) == p.4 && line.get_char(5) == p.5;
    proof {
        assert(line@.take(6)[0] == line@[0]);
        assert(line@.take(6)[1] == line@[1]);
        assert(line@.take(6)[2] == line@[2]);
        assert(line@.take(6)[3] == line@[3]);
        assert(line@.take(6)[4] == line@[4]);
        assert(line@.take(6)[5] == line@[5]);
        if b {
            assert(line@.take(6) =~= status_prefix(st));
        }
    }
    b
}

/// Read one stored line: the status named by its prefix and the text
/// after it, or `None` for an ill-formed line.
pub fn parse_item<'a>(line: &'a str) -> (r: Option<(Status, &'a str)>)
    ensures
        (match r {
            Some(p) => parse_line(line@) matches Some(q) && p.0 == q.0 && p.1@ == q.1,
            None => parse_line(line@) is None,
        }),
{
    if line_has_prefix(line, Status::Todo) {
        let rest = line.substring_char(6, line.unicode_len());
        proof {
            assert(rest@ =~= line@.skip(6));
        }
        Some((Status::Todo, rest))
    } else if line_has_prefix(line, Status::Done) {
        let rest = line.substring_char(6, line.unicode_len());
        proof {
            assert(rest@ =~= line@.skip(6));
        }
        Some((Status::Done, rest))
    } else {
        None
    }
}

/// All lines of a document holding the two given lists: the pending
/// block in list order, then the completed block in list order.
pub open spec fn encode_lines(todos: Seq<Seq<char>>, dones: Seq<Seq<char>>) -> Seq<Seq<char>> {
    todos.map_values(|t: Seq<char>| encode_line(Status::Todo, t)) + dones.map_values(
        |t: Seq<char>| encode_line(Status::Done, t),
    )
}

/// The six-character prefix of status `st` as an owned string.
fn prefix_string(st: Status) -> (r: String)
    ensures
        r@ == status_prefix(st),
{
    match st {
        Status::Todo => {
            let s = "TODO: ";
            proof {
                reveal_strlit("TODO: ");
                assert(s@ =~= status_prefix(Status::Todo));
            }
            s.to_owned()
        },
        Status::Done => {
            let s = "DONE: ";
            proof {
                reveal_strlit("DONE: ");
                assert(s@ =~= status_prefix(Status::Done));
            }
            s.to_owned()
        },
    }
}

/// Serialize the two lists: one line per item, the whole pending list
/// before the whole completed list.
pub fn encode(todos: &Vec<String>, dones: &Vec<String>) -> (lines: Vec<String>)
    ensures
        lines.deep_view() == encode_lines(todos.deep_view(), dones.deep_view()),
{
    let ghost enc_todo = |t: Seq<char>| encode_line(Status::Todo, t);
    let ghost enc_done = |t: Seq<char>| encode_line(Status::Done, t);
    let mut lines: Vec<String> = Vec::new();
    let mut i: usize = 0;
    while i < todos.len()
        invariant
            enc_todo == (|t: Seq<char>| encode_line(Status::Todo, t)),
            i <= todos@.len(),
            lines.deep_view() == todos.deep_view().take(i as int).map_values(enc_todo),
        decreases todos@.len() - i,
    {
        let ghost prev = lines.deep_view();
        let mut s = prefix_string(Status::Todo);
        s.append(todos[i].as_str());
        lines.push(s);
        proof {
            assert(lines.deep_view() =~= prev.push(s@));
            assert(todos.deep_view()[i as int] == todos@[i as int]@);
            assert(s@ == status_prefix(Status::Todo) + todos@[i as int]@);
            todos.deep_view().lemma_map_take_succ(enc_todo, i as int);
            assert(enc_todo(todos.deep_view()[i as int]) == encode_line(
                Status::Todo,
                todos.deep_view()[i as int],
            ));
            assert(enc_todo(todos.deep_view()[i as int]) == s@);
            assert(todos.deep_view().take(i + 1).map_values(enc_todo) =~= prev.push(s@));
        }
        i = i + 1;
    }
    proof {
        assert(todos.deep_view().take(todos@.len() as int) =~= todos.deep_view());
    }
    let mut j: usize = 0;
    while j < dones.len()
        invariant
            enc_todo == (|t: Seq<char>| encode_line(Status::Todo, t)),
            enc_done == (|t: Seq<char>| encode_line(Status::Done, t)),
            j <= dones@.len(),
            lines.deep_view() == todos.deep_view().map_values(enc_todo) + dones.deep_view().take(
                j as int,
            ).map_values(enc_done),
        decreases dones@.len() - j,
    {
        let ghost prev = lines.deep_view();
        let mut s = prefix_string(Status::Done);
        s.append(dones[j].as_str());
        lines.push(s);
        proof {
            assert(lines.deep_view() =~= prev.push(s@));
            assert(dones.deep_view()[j as int] == dones@[j as int]@);
            assert(s@ == status_prefix(Status::Done) + dones@[j as int]@);
            dones.deep_view().lemma_map_take_succ(enc_done, j as int);
            assert(enc_done(dones.deep_view()[j as int]) == s@);
            assert(todos.deep_view().map_values(enc_todo) + dones.deep_view().take(j + 1).map_values(
                enc_done,
            ) =~= prev.push(s@));
        }
        j = j + 1;
    }
    proof {
        assert(dones.deep_view().take(dones@.len() as int) =~= dones.deep_view());
        assert(lines.deep_view() =~= encode_lines(todos.deep_view(), dones.deep_view()));
    }
    lines
}

/// The texts of the items of status `st` among `lines`, in line order.
pub open spec fn decode_list(lines: Seq<Seq<char>>, st: Status) -> Seq<Seq<char>>
    decreases lines.len(),
{
    if lines.len() == 0 {
        Seq::empty()
    } else {
        let rest = decode_list(lines.drop_first(), st);
        match parse_line(lines.first()) {
            Some(p) => if p.0 == st {
                seq![p.1] + rest
            } else {
                rest
            },
            None => rest,
        }
    }
}

/// What one more line at the end of a document adds to the decoded list
/// of status `st`: its text if it carries that status, nothing otherwise.
pub open spec fn line_contribution(line: Seq<char>, st: Status) -> Seq<Seq<char>> {
    match parse_line(line) {
        Some(p) => if p.0 == st {
            seq![p.1]
        } else {
            Seq::empty()
        },
        None => Seq::empty(),
    }
}

/// Decoding a document extended by one line decodes the document and then
/// that line's own contribution.
pub proof fn lemma_decode_list_push(lines: Seq<Seq<char>>, line: Seq<char>, st: Status)
    ensures
        decode_list(lines.push(line), st) == decode_list(lines, st) + line_contribution(line, st),
    decreases lines.len(),
{
    if lines.len() == 0 {
        assert(lines.push(line).first() == line);
        assert(lines.push(line).drop_first() =~= Seq::<Seq<char>>::empty());
        assert(decode_list(Seq::<Seq<char>>::empty(), st) == Seq::<Seq<char>>::empty());
        assert(decode_list(lines.push(line), st) =~= decode_list(lines, st) + line_contribution(
            line,
            st,
        ));
    } else {
        assert(lines.push(line).first() == lines.first());
        assert(lines.push(line).drop_first() =~= lines.drop_first().push(line));
        lemma_decode_list_push(lines.drop_first(), line, st);
        assert(decode_list(lines.push(line), st) =~= decode_list(lines, st) + line_contribution(
            line,
            st,
        ));
    }
}

/// Deserialize a document: the pending texts and the completed texts, in
/// line order, or the 1-based number of the first ill-formed line.
pub fn decode(lines: &Vec<String>) -> (r: Result<(Vec<String>, Vec<String>), usize>)
    ensures
        (match r {
            Ok(lists) => (forall|i: int|
                0 <= i < lines.deep_view().len() ==> parse_line(lines.deep_view()[i]) is Some)
                && lists.0.deep_view() == decode_list(lines.deep_view(), Status::Todo)
                && lists.1.deep_view() == decode_list(lines.deep_view(), Status::Done),
            Err(k) => 1 <= k <= lines.deep_view().len() && parse_line(
                lines.deep_view()[k - 1],
            ) is None && (forall|i: int|
                0 <= i < k - 1 ==> parse_line(lines.deep_view()[i]) is Some),
        }),
{
    let mut todos: Vec<String> = Vec::new();
    let mut dones: Vec<String> = Vec::new();
    let mut i: usize = 0;
    while i < lines.len()
        invariant
            i <= lines@.len(),
            forall|j: int| 0 <= j < i ==> parse_line(lines.deep_view()[j]) is Some,
            todos.deep_view() == decode_list(lines.deep_view().take(i as int), Status::Todo),
            dones.deep_view() == decode_list(lines.deep_view().take(i as int), Status::Done),
        decreases lines@.len() - i,
    {
        let ghost prev_todos = todos.deep_view();
        let ghost prev_dones = dones.deep_view();
        let line = &lines[i];
        proof {
            assert(line@ == lines.deep_view()[i as int]);
        }
        match parse_item(line.as_str()) {
            Some(p) => {
                let text = p.1.to_owned();
                match p.0 {
                    Status::Todo => todos.push(text),
                    Status::Done => dones.push(text),
                }
                proof {
                    assert(todos.deep_view() =~= prev_todos + line_contribution(
                        line@,
                        Status::Todo,
                    ));
                    assert(dones.deep_view() =~= prev_dones + line_contribution(
                        line@,
                        Status::Done,
                    ));
                }
            },
            None => {
                return Result::Err(i + 1);
            },
        }
        proof {
            assert(lines.deep_view().take(i + 1) =~= lines.deep_view().take(i as int).push(line@));
            lemma_decode_list_push(lines.deep_view().take(i as int), line@, Status::Todo);
            lemma_decode_list_push(lines.deep_view().take(i as int), line@, Status::Done);
        }
        i = i + 1;
    }
    proof {
        assert(lines.deep_view().take(lines@.len() as int) =~= lines.deep_view());
    }
    Result::Ok((todos, dones))
}

/// A stored line reads back as exactly the status and text it was made
/// from: parsing inverts encoding, line by line.
pub proof fn lemma_parse_encode_line(st: Status, text: Seq<char>)
    ensures
        parse_line(encode_line(st, text)) == Some((st, text)),
{
    let line = encode_line(st, text);
    assert(line.take(6) =~= status_prefix(st));
    assert(line.skip(6) =~= text);
    if st is Done {
        assert(status_prefix(Status::Done)[0] == 'D' && status_prefix(Status::Todo)[0] == 'T');
        assert(line.take(6) != status_prefix(Status::Todo));
    }
}

/// Decoding a document made of two blocks decodes each block on its own.
pub proof fn lemma_decode_list_concat(a: Seq<Seq<char>>, b: Seq<Seq<char>>, st: Status)
    ensures
        decode_list(a + b, st) == decode_list(a, st) + decode_list(b, st),
    decreases a.len(),
{
    if a.len() == 0 {
        assert(a + b =~= b);
        assert(decode_list(a, st) + decode_list(b, st) =~= decode_list(b, st));
    } else {
        assert((a + b).first() == a.first());
        assert((a + b).drop_first() =~= a.drop_first() + b);
        lemma_decode_list_concat(a.drop_first(), b, st);
        assert(decode_list(a + b, st) =~= decode_list(a, st) + decode_list(b, st));
    }
}

/// A block of lines all encoded with status `enc_st` decodes back to the
/// very texts it was made from, and contributes nothing to the other list.
pub proof fn lemma_decode_encoded_block(
    items: Seq<Seq<char>>,
    enc_st: Status,
    st: Status,
    f: spec_fn(Seq<char>) -> Seq<char>,
)
    requires
        forall|t: Seq<char>| #[trigger] f(t) == encode_line(enc_st, t),
    ensures
        decode_list(items.map_values(f), st) == (if enc_st == st {
            items
        } else {
            Seq::<Seq<char>>::empty()
        }),
    decreases items.len(),
{
    let ml = items.map_values(f);
    if items.len() == 0 {
        assert(ml =~= Seq::<Seq<char>>::empty());
    } else {
        assert(ml.first() == f(items.first()));
        assert(ml.drop_first() =~= items.drop_first().map_values(f));
        lemma_parse_encode_line(enc_st, items.first());
        lemma_decode_encoded_block(items.drop_first(), enc_st, st, f);
        if enc_st == st {
            assert(decode_list(ml, st) =~= items);
        }
    }
}

/// The round trip: every line that `encode_lines` produces is well formed,
/// and decoding them recovers the pending and the completed list exactly.
pub proof fn lemma_round_trip(todos: Seq<Seq<char>>, dones: Seq<Seq<char>>)
    ensures
        forall|i: int|
            0 <= i < encode_lines(todos, dones).len() ==> parse_line(
                #[trigger] encode_lines(todos, dones)[i],
            ) is Some,
        decode_list(encode_lines(todos, dones), Status::Todo) == todos,
        decode_list(encode_lines(todos, dones), Status::Done) == dones,
{
    let ft = |t: Seq<char>| encode_line(Status::Todo, t);
    let fd = |t: Seq<char>| encode_line(Status::Done, t);
    let tl = todos.map_values(ft);
    let dl = dones.map_values(fd);
    assert(encode_lines(todos, dones) =~= tl + dl);
    lemma_decode_list_concat(tl, dl, Status::Todo);
    lemma_decode_list_concat(tl, dl, Status::Done);
    lemma_decode_encoded_block(todos, Status::Todo, Status::Todo, ft);
    lemma_decode_encoded_block(todos, Status::Todo, Status::Done, ft);
    lemma_decode_encoded_block(dones, Status::Done, Status::Todo, fd);
    lemma_decode_encoded_block(dones, Status::Done, Status::Done, fd);
    assert(decode_list(encode_lines(todos, dones), Status::Todo) =~= todos);
    assert(decode_list(encode_lines(todos, dones), Status::Done) =~= dones);
    assert forall|i: int| 0 <= i < encode_lines(todos, dones).len() implies parse_line(
        #[trigger] encode_lines(todos, dones)[i],
    ) is Some by {
        if i < tl.len() {
            assert(encode_lines(todos, dones)[i] == ft(todos[i]));
            lemma_parse_encode_line(Status::Todo, todos[i]);
        } else {
            assert(encode_lines(todos, dones)[i] == fd(dones[i - tl.len()]));
            lemma_parse_encode_line(Status::Done, dones[i - tl.len()]);
        }
    }
}

} // verus!
