//! Per-worker buffer that groups accepted records into JSON array batches
//! of at most `BATCH_SIZE` records.
use vstd::prelude::*;
use vstd::utf8::encode_utf8;

verus! {

/// Records per full batch.
pub const BATCH_SIZE: usize = 4096;

/// A lowercase hexadecimal digit, in ASCII.
pub open spec fn hex_digit(n: u32) -> u8 {
    if n < 10 {
        (48 + n) as u8
    } else {
        (87 + n) as u8
    }
}

/// The bytes `serde_json` writes for one character inside a string: `"`
/// and `\` escaped with a backslash, the control characters as their short
/// escapes or as `\u00XX`, everything else as its UTF-8 encoding.
pub open spec fn escape_char(c: char) -> Seq<u8> {
    let v = c as u32;
    if c == '"' {
        seq![92u8, 34u8]
    } else if c == '\\' {
        seq![92u8, 92u8]
    } else if v == 8 {
        seq![92u8, 98u8]
    } else if v == 9 {
        seq![92u8, 116u8]
    } else if v == 10 {
        seq![92u8, 110u8]
    } else if v == 12 {
        seq![92u8, 102u8]
    } else if v == 13 {
        seq![92u8, 114u8]
    } else if v < 32 {
        seq![92u8, 117u8, 48u8, 48u8, hex_digit(v / 16), hex_digit(v % 16)]
    } else {
        encode_utf8(seq![c])
    }
}

/// The escaped characters of a string, without the quotes.
pub open spec fn json_escape(s: Seq<char>) -> Seq<u8>
    decreases s.len(),
{
    if s.len() == 0 {
        Seq::empty()
    } else {
        json_escape(s.drop_last()) + escape_char(s.last())
    }
}

/// The JSON string literal of a string, between double quotes (34).
pub open spec fn json_string(s: Seq<char>) -> Seq<u8> {
    seq![34u8] + json_escape(s) + seq![34u8]
}

/// Relies on `serde_json::to_writer` applied to a `&str`: it appends the
/// string between quotes, escaped by `serde_json`'s table; writing into a
/// `Vec<u8>` cannot fail.
#[verifier::external_body]
fn write_json_string(buf: &mut Vec<u8>, s: &str)
    ensures
        final(buf)@ == old(buf)@ + json_string(s@),
{
    serde_json::to_writer(buf, s).unwrap()
}

/// A matched file with its timestamps, as unix seconds in decimal text.
pub struct FileEntry {
    pub path: String,
    pub modified: String,
    pub created: Option<String>,
}

/// Encoded records joined by commas (44).
pub open spec fn join(items: Seq<Seq<u8>>) -> Seq<u8>
    decreases items.len(),
{
    if items.len() == 0 {
        Seq::empty()
    } else if items.len() == 1 {
        items[0]
    } else {
        join(items.drop_last()) + seq![44u8] + items.last()
    }
}

/// A batch: a JSON array of the encoded records, between `[` (91) and `]` (93).
pub open spec fn array_json(items: Seq<Seq<u8>>) -> Seq<u8> {
    seq![91u8] + join(items) + seq![93u8]
}

/// `{"path":` in ASCII.
pub open spec fn path_key() -> Seq<u8> {
    seq![123u8, 34u8, 112u8, 97u8, 116u8, 104u8, 34u8, 58u8]
}

/// `,"modified":` in ASCII.
pub open spec fn modified_key() -> Seq<u8> {
    seq![44u8, 34u8, 109u8, 111u8, 100u8, 105u8, 102u8, 105u8, 101u8, 100u8, 34u8, 58u8]
}

/// `,"created":` in ASCII.
pub open spec fn created_key() -> Seq<u8> {
    seq![44u8, 34u8, 99u8, 114u8, 101u8, 97u8, 116u8, 101u8, 100u8, 34u8, 58u8]
}

/// The JSON object of an entry; `created` is left out when unknown.
pub open spec fn entry_json(path: Seq<char>, modified: Seq<char>, created: Option<Seq<char>>) -> Seq<u8> {
    path_key() + json_string(path) + modified_key() + json_string(modified) + match created {
        Some(c) => created_key() + json_string(c),
        None => Seq::empty(),
    } + seq![125u8]
}

impl FileEntry {
    pub open spec fn json(&self) -> Seq<u8> {
        entry_json(
            self.path@,
            self.modified@,
            match self.created {
                Some(c) => Some(c@),
                None => None,
            },
        )
    }
}

/// Encodes an entry as a JSON object.
pub fn encode_entry(e: &FileEntry) -> (r: Vec<u8>)
    ensures
        r@ == e.json(),
{
    let mut out: Vec<u8> = vec![123u8, 34u8, 112u8, 97u8, 116u8, 104u8, 34u8, 58u8];
    assert(out@ == path_key());
    write_json_string(&mut out, e.path.as_str());
    let mut k: Vec<u8> = vec![44u8, 34u8, 109u8, 111u8, 100u8, 105u8, 102u8, 105u8, 101u8, 100u8, 34u8, 58u8];
    assert(k@ == modified_key());
    out.append(&mut k);
    write_json_string(&mut out, e.modified.as_str());
    let ghost before = out@;
    match &e.created {
        Some(c) => {
            let mut k: Vec<u8> = vec![44u8, 34u8, 99u8, 114u8, 101u8, 97u8, 116u8, 101u8, 100u8, 34u8, 58u8];
            assert(k@ == created_key());
            out.append(&mut k);
            write_json_string(&mut out, c.as_str());
        },
        None => {},
    }
    out.push(125u8);
    assert(out@ =~= e.json());
    out
}

/// Records accumulated by one worker, not yet handed off.
pub struct BatchSender {
    count: usize,
    buf: Vec<u8>,
    items: Ghost<Seq<Seq<u8>>>,
}

impl BatchSender {
    /// The encoded records of the open batch, in the order they came.
    pub closed spec fn pending(&self) -> Seq<Seq<u8>> {
        self.items@
    }

    pub closed spec fn wf(&self) -> bool {
        &&& self.count == self.items@.len()
        &&& self.count < BATCH_SIZE
        &&& self.buf@ == seq![91u8] + join(self.items@)
    }

    /// An open batch with no records.
    pub fn new() -> (r: Self)
        ensures
            r.wf(),
            r.pending() == Seq::<Seq<u8>>::empty(),
    {
        let buf: Vec<u8> = vec![91u8];
        let r = BatchSender { count: 0, buf, items: Ghost(Seq::empty()) };
        assert(r.buf@ =~= seq![91u8] + join(r.items@));
        r
    }

    /// Adds one encoded record; hands back the batch once it holds
    /// `BATCH_SIZE` records, and starts a new one.
    fn send_encoded(&mut self, item: Vec<u8>) -> (r: Option<Vec<u8>>)
        requires
            old(self).wf(),
        ensures
            final(self).wf(),
            old(self).pending().len() + 1 == BATCH_SIZE ==> r is Some && r->Some_0@ == array_json(
                old(self).pending().push(item@),
            ) && final(self).pending() == Seq::<Seq<u8>>::empty(),
            old(self).pending().len() + 1 < BATCH_SIZE ==> r is None && final(self).pending()
                == old(self).pending().push(item@),
    {
        let ghost items0 = self.items@;
        let ghost all = items0.push(item@);
        assert(all.drop_last() =~= items0);
        if self.count > 0 {
            self.buf.push(44u8);
        }
        let mut item = item;
        self.buf.append(&mut item);
        assert(self.buf@ =~= seq![91u8] + join(all));
        self.count = self.count + 1;
        self.items = Ghost(all);
        if self.count == BATCH_SIZE {
            self.buf.push(93u8);
            assert(self.buf@ =~= array_json(all));
            let mut fresh: Vec<u8> = vec![91u8];
            core::mem::swap(&mut self.buf, &mut fresh);
            self.count = 0;
            self.items = Ghost(Seq::empty());
            assert(self.buf@ =~= seq![91u8] + join(self.items@));
            Some(fresh)
        } else {
            None
        }
    }

    /// Adds a bare path record.
    pub fn send(&mut self, path: &str) -> (r: Option<Vec<u8>>)
        requires
            old(self).wf(),
        ensures
            final(self).wf(),
            old(self).pending().len() < BATCH_SIZE,
            old(self).pending().len() + 1 == BATCH_SIZE ==> r is Some && r->Some_0@ == array_json(
                old(self).pending().push(json_string(path@)),
            ) && final(self).pending() == Seq::<Seq<u8>>::empty(),
            old(self).pending().len() + 1 < BATCH_SIZE ==> r is None && final(self).pending()
                == old(self).pending().push(json_string(path@)),
    {
        let mut item: Vec<u8> = Vec::new();
        write_json_string(&mut item, path);
        assert(item@ =~= json_string(path@));
        self.send_encoded(item)
    }

    /// Adds a record with timestamps.
    pub fn send_entry(&mut self, e: &FileEntry) -> (r: Option<Vec<u8>>)
        requires
            old(self).wf(),
        ensures
            final(self).wf(),
            old(self).pending().len() < BATCH_SIZE,
            old(self).pending().len() + 1 == BATCH_SIZE ==> r is Some && r->Some_0@ == array_json(
                old(self).pending().push(e.json()),
            ) && final(self).pending() == Seq::<Seq<u8>>::empty(),
            old(self).pending().len() + 1 < BATCH_SIZE ==> r is None && final(self).pending()
                == old(self).pending().push(e.json()),
    {
        let item = encode_entry(e);
        self.send_encoded(item)
    }

    /// Closes the open batch: hands it back unless it is empty.
    pub fn flush(&mut self) -> (r: Option<Vec<u8>>)
        requires
            old(self).wf(),
        ensures
            final(self).wf(),
            final(self).pending() == Seq::<Seq<u8>>::empty(),
            old(self).pending().len() < BATCH_SIZE,
            old(self).pending().len() == 0 ==> r is None,
            old(self).pending().len() > 0 ==> r is Some && r->Some_0@ == array_json(old(self).pending()),
    {
        if self.count == 0 {
            return None;
        }
        self.buf.push(93u8);
        assert(self.buf@ =~= array_json(self.items@));
        let mut fresh: Vec<u8> = vec![91u8];
        core::mem::swap(&mut self.buf, &mut fresh);
        self.count = 0;
        self.items = Ghost(Seq::empty());
        assert(self.buf@ =~= seq![91u8] + join(self.items@));
        Some(fresh)
    }
}

} // verus!
