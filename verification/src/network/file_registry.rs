//! The files that this node offers, under the keys by which peers ask for
//! them.
use vstd::prelude::*;
use crate::numfmt::{dec_repr, hex_repr, push_dec, push_hex};
use crate::text::push_char;

verus! {

/// A file offered to peers: where it is on disk, its name and its size.
#[derive(Debug, Clone)]
pub struct SharedFile {
    pub path: String,
    pub name: String,
    pub size: u64,
}

/// The abstract value of a shared file.
pub struct SharedFileModel {
    pub path: Seq<char>,
    pub name: Seq<char>,
    pub size: u64,
}

impl View for SharedFile {
    type V = SharedFileModel;

    open spec fn view(&self) -> SharedFileModel {
        SharedFileModel { path: self.path@, name: self.name@, size: self.size }
    }
}

impl SharedFile {
    /// A copy of this record.
    pub fn duplicate(&self) -> (res: SharedFile)
        ensures
            res@ == self@,
    {
        SharedFile { path: self.path.clone(), name: self.name.clone(), size: self.size }
    }
}

/// The key `packet_no:file_id` in decimal.
pub open spec fn key_dec_pair(packet_no: u32, file_id: u32) -> Seq<char> {
    dec_repr(packet_no as nat) + seq![':'] + dec_repr(file_id as nat)
}

/// The key `packet_no:file_id` in hex.
pub open spec fn key_hex_pair(packet_no: u32, file_id: u32) -> Seq<char> {
    hex_repr(packet_no as nat) + seq![':'] + hex_repr(file_id as nat)
}

/// The map after a file is registered: under the decimal pair, the hex
/// pair, the decimal file id and the hex file id, in that order.
pub open spec fn registered(
    m: Map<Seq<char>, SharedFileModel>,
    packet_no: u32,
    file_id: u32,
    file: SharedFileModel,
) -> Map<Seq<char>, SharedFileModel> {
    m.insert(key_dec_pair(packet_no, file_id), file).insert(key_hex_pair(packet_no, file_id), file).insert(
        dec_repr(file_id as nat),
        file,
    ).insert(hex_repr(file_id as nat), file)
}

/// What a lookup finds: the file under the first of the four keys that is
/// present, tried in the order of registration.
pub open spec fn lookup_in(
    m: Map<Seq<char>, SharedFileModel>,
    packet_no: u32,
    file_id: u32,
) -> Option<SharedFileModel> {
    let k1 = key_dec_pair(packet_no, file_id);
    let k2 = key_hex_pair(packet_no, file_id);
    let k3 = dec_repr(file_id as nat);
    let k4 = hex_repr(file_id as nat);
    if m.contains_key(k1) {
        Some(m[k1])
    } else if m.contains_key(k2) {
        Some(m[k2])
    } else if m.contains_key(k3) {
        Some(m[k3])
    } else if m.contains_key(k4) {
        Some(m[k4])
    } else {
        None
    }
}

/// The map that a list of entries stands for: a later entry for a key
/// hides the earlier ones.
pub open spec fn entries_map(e: Seq<(String, SharedFile)>) -> Map<Seq<char>, SharedFileModel>
    decreases e.len(),
{
    if e.len() == 0 {
        Map::empty()
    } else {
        entries_map(e.drop_last()).insert(e.last().0@, e.last().1@)
    }
}

/// Entries after position `j` that do not hold `k` leave it as it was.
proof fn lemma_entries_suffix(e: Seq<(String, SharedFile)>, j: int, k: Seq<char>)
    requires
        0 <= j <= e.len(),
        forall|t: int| j <= t < e.len() ==> e[t].0@ != k,
    ensures
        entries_map(e).contains_key(k) == entries_map(e.take(j)).contains_key(k),
        entries_map(e).contains_key(k) ==> entries_map(e)[k] == entries_map(e.take(j))[k],
    decreases e.len() - j,
{
    if j < e.len() {
        let e2 = e.drop_last();
        assert(e2.take(j) =~= e.take(j));
        lemma_entries_suffix(e2, j, k);
    } else {
        assert(e.take(j) =~= e);
    }
}

/// The shared files by the keys peers use to ask for them. It belongs to
/// one engine, and is shared by sharing that engine.
pub struct FileRegistry {
    files: Vec<(String, SharedFile)>,
}

impl View for FileRegistry {
    type V = Map<Seq<char>, SharedFileModel>;

    closed spec fn view(&self) -> Map<Seq<char>, SharedFileModel> {
        entries_map(self.files@)
    }
}

impl FileRegistry {
    /// An empty registry.
    pub fn new() -> (res: FileRegistry)
        ensures
            res@ == Map::<Seq<char>, SharedFileModel>::empty(),
    {
        FileRegistry { files: Vec::new() }
    }

    fn put(&mut self, key: String, file: SharedFile)
        ensures
            final(self)@ == old(self)@.insert(key@, file@),
    {
        self.files.push((key, file));
        proof {
            assert(self.files@.drop_last() =~= old(self).files@);
        }
    }

    fn find(&self, key: &String) -> (res: Option<SharedFile>)
        ensures
            match res {
                Some(f) => self@.contains_key(key@) && self@[key@] == f@,
                None => !self@.contains_key(key@),
            },
    {
        let ghost e = self.files@;
        let mut j = self.files.len();
        while j > 0
            invariant
                j <= e.len(),
                e == self.files@,
                forall|t: int| j <= t < e.len() ==> e[t].0@ != key@,
            decreases j,
        {
            if self.files[j - 1].0 == *key {
                proof {
                    lemma_entries_suffix(e, j as int, key@);
                    assert(e.take(j as int).drop_last() =~= e.take(j - 1));
                }
                return Some(self.files[j - 1].1.duplicate());
            }
            j = j - 1;
        }
        proof {
            lemma_entries_suffix(e, 0, key@);
            assert(e.take(0) =~= Seq::<(String, SharedFile)>::empty());
        }
        None
    }

    /// Offers `file` under the keys for `packet_no` and `file_id`.
    pub fn register(&mut self, packet_no: u32, file_id: u32, file: SharedFile)
        ensures
            final(self)@ == registered(old(self)@, packet_no, file_id, file@),
    {
        let k1 = dec_pair(packet_no, file_id);
        let k2 = hex_pair(packet_no, file_id);
        let mut k3 = String::new();
        push_dec(&mut k3, file_id as u64);
        let mut k4 = String::new();
        push_hex(&mut k4, file_id as u64);
        assert(k3@ =~= dec_repr(file_id as nat));
        assert(k4@ =~= hex_repr(file_id as nat));
        self.put(k1, file.duplicate());
        self.put(k2, file.duplicate());
        self.put(k3, file.duplicate());
        self.put(k4, file);
    }

    /// The file registered for `packet_no` and `file_id`, looked up under the
    /// decimal pair, the hex pair, the decimal id and the hex id in turn.
    pub fn lookup(&self, packet_no: u32, file_id: u32) -> (res: Option<SharedFile>)
        ensures
            match res {
                Some(f) => lookup_in(self@, packet_no, file_id) == Some(f@),
                None => lookup_in(self@, packet_no, file_id) is None,
            },
    {
        let k1 = dec_pair(packet_no, file_id);
        if let Some(f) = self.find(&k1) {
            return Some(f);
        }
        let k2 = hex_pair(packet_no, file_id);
        if let Some(f) = self.find(&k2) {
            return Some(f);
        }
        let mut k3 = String::new();
        push_dec(&mut k3, file_id as u64);
        assert(k3@ =~= dec_repr(file_id as nat));
        if let Some(f) = self.find(&k3) {
            return Some(f);
        }
        let mut k4 = String::new();
        push_hex(&mut k4, file_id as u64);
        assert(k4@ =~= hex_repr(file_id as nat));
        self.find(&k4)
    }
}

fn dec_pair(packet_no: u32, file_id: u32) -> (res: String)
    ensures
        res@ == key_dec_pair(packet_no, file_id),
{
    let mut s = String::new();
    push_dec(&mut s, packet_no as u64);
    push_char(&mut s, ':');
    push_dec(&mut s, file_id as u64);
    assert(s@ =~= key_dec_pair(packet_no, file_id));
    s
}

fn hex_pair(packet_no: u32, file_id: u32) -> (res: String)
    ensures
        res@ == key_hex_pair(packet_no, file_id),
{
    let mut s = String::new();
    push_hex(&mut s, packet_no as u64);
    push_char(&mut s, ':');
    push_hex(&mut s, file_id as u64);
    assert(s@ =~= key_hex_pair(packet_no, file_id));
    s
}

/// A file just registered for `packet_no` and `file_id` is what a lookup
/// for them finds.
pub proof fn lemma_register_then_lookup(
    m: Map<Seq<char>, SharedFileModel>,
    packet_no: u32,
    file_id: u32,
    file: SharedFileModel,
)
    ensures
        lookup_in(registered(m, packet_no, file_id, file), packet_no, file_id) == Some(file),
{
}

} // verus!
