use vstd::prelude::*;

verus! {

/// The fields of a torrent as reported by the daemon that this library reads.
pub struct RemoteTorrent {
    pub id: Option<i64>,
    pub name: Option<String>,
}

/// The view model of one torrent: its id and its name, either of which the daemon may omit.
#[derive(Clone, Debug)]
pub struct MyTorrent {
    pub id: Option<i64>,
    pub name: Option<String>,
}

/// The key of a torrent's row in a rendered list: its id where the daemon gave one,
/// else its name.
#[derive(Clone, Debug, PartialEq, Eq, Hash)]
pub enum RowKey {
    Id(i64),
    Name(Option<String>),
}

/// The row key of a torrent.
pub open spec fn key_of(t: MyTorrent) -> RowKey {
    match t.id {
        Some(i) => RowKey::Id(i),
        None => RowKey::Name(t.name),
    }
}

/// The view model of a record of the daemon: its id and its name, nothing else.
pub open spec fn normalized(r: RemoteTorrent) -> MyTorrent {
    MyTorrent { id: r.id, name: r.name }
}

/// The view models of a sequence of records, one for each, in order.
pub open spec fn normalized_all(s: Seq<RemoteTorrent>) -> Seq<MyTorrent> {
    s.map_values(|r: RemoteTorrent| normalized(r))
}

/// Two torrents with different ids have different row keys, and a torrent with an id
/// never shares its key with one without.
pub proof fn lemma_row_keys_distinct(a: MyTorrent, b: MyTorrent)
    requires
        a.id is Some || b.id is Some,
        a.id != b.id,
    ensures
        key_of(a) != key_of(b),
{
}

/// The characters of an optional string.
pub open spec fn opt_chars(o: Option<String>) -> Option<Seq<char>> {
    match o {
        Some(s) => Some(s@),
        None => None,
    }
}

/// The name of a torrent, as characters.
pub open spec fn name_of(t: MyTorrent) -> Option<Seq<char>> {
    opt_chars(t.name)
}

fn copy_name(o: &Option<String>) -> (r: Option<String>)
    ensures
        r == *o,
{
    match o {
        Some(s) => Some(s.clone()),
        None => None,
    }
}

impl MyTorrent {
    /// Maps a record of the daemon to the view model, keeping its id and name.
    pub fn normalize(record: &RemoteTorrent) -> (r: MyTorrent)
        ensures
            r == normalized(*record),
            r.id == record.id,
            r.name == record.name,
    {
        MyTorrent { id: record.id, name: copy_name(&record.name) }
    }

    /// The key of this torrent's row: its id where present, else its name.
    pub fn row_key(&self) -> (r: RowKey)
        ensures
            r == key_of(*self),
    {
        match self.id {
            Some(i) => RowKey::Id(i),
            None => RowKey::Name(copy_name(&self.name)),
        }
    }

    /// A copy of this torrent.
    pub fn duplicate(&self) -> (r: MyTorrent)
        ensures
            r == *self,
    {
        MyTorrent { id: self.id, name: copy_name(&self.name) }
    }
}

/// The view models of the records, one for each, in order.
pub fn normalize_all(records: &Vec<RemoteTorrent>) -> (r: Vec<MyTorrent>)
    ensures
        r@ == normalized_all(records@),
        r@.len() == records@.len(),
{
    let mut out: Vec<MyTorrent> = Vec::new();
    let mut i: usize = 0;
    while i < records.len()
        invariant
            i <= records.len(),
            out@ == normalized_all(records@.subrange(0, i as int)),
        decreases records.len() - i,
    {
        let t = MyTorrent::normalize(&records[i]);
        out.push(t);
        proof {
            assert(normalized_all(records@.subrange(0, i + 1)) =~= normalized_all(records@.subrange(0, i as int)).push(t));
        }
        i = i + 1;
    }
    proof {
        assert(records@.subrange(0, records.len() as int) =~= records@);
    }
    out
}

} // verus!
