//! How much shuffle data a directory holds.
use vstd::prelude::*;

verus! {

/// The name of the files that index a sort-shuffle data file; they hold no shuffle data.
pub const INDEX_FILE: &'static str = "data.arrow.index";

/// What a directory holds under one name.
#[derive(Debug)]
pub enum DirEntry {
    /// Its metadata could not be read.
    Unreadable,
    /// A directory; one that could not be listed has no entries.
    Directory(Vec<DirEntry>),
    /// Anything else, with its name and its length in bytes.
    File { name: String, len: u64 },
}

impl DirEntry {
    /// The bytes of shuffle data in and below this entry.
    pub open spec fn data_bytes(self) -> nat
        decreases self,
    {
        match self {
            DirEntry::Unreadable => 0,
            DirEntry::Directory(entries) => total_data_bytes(entries@),
            DirEntry::File { name, len } => if name@ == INDEX_FILE@ {
                0
            } else {
                len as nat
            },
        }
    }
}

/// The bytes of shuffle data in and below a list of entries.
pub open spec fn total_data_bytes(entries: Seq<DirEntry>) -> nat
    decreases entries,
{
    if entries.len() == 0 {
        0
    } else {
        total_data_bytes(entries.drop_last()) + entries.last().data_bytes()
    }
}

proof fn lemma_prefix_bytes(entries: Seq<DirEntry>, i: int)
    requires
        0 <= i <= entries.len(),
    ensures
        total_data_bytes(entries.take(i)) <= total_data_bytes(entries),
    decreases entries.len() - i,
{
    if i < entries.len() {
        assert(entries.take(i + 1).drop_last() =~= entries.take(i));
        lemma_prefix_bytes(entries, i + 1);
    } else {
        assert(entries.take(i) =~= entries);
    }
}

/// The bytes of shuffle data in and below a directory with these entries.
pub fn dir_size(entries: &Vec<DirEntry>) -> (total: u64)
    requires
        total_data_bytes(entries@) <= u64::MAX,
    ensures
        total == total_data_bytes(entries@),
    decreases entries,
{
    let mut total: u64 = 0;
    let mut i: usize = 0;
    while i < entries.len()
        invariant
            i <= entries.len(),
            total_data_bytes(entries@) <= u64::MAX,
            total == total_data_bytes(entries@.take(i as int)),
        decreases entries.len() - i,
    {
        proof {
            assert(entries@.take(i + 1).drop_last() =~= entries@.take(i as int));
            lemma_prefix_bytes(entries@, i + 1);
            assert(total_data_bytes(entries@.take(i + 1)) == total + entries@[i as int].data_bytes());
            reveal_with_fuel(DirEntry::data_bytes, 2);
            assert(decreases_to!(entries => entries@[i as int]));
        }
        match &entries[i] {
            DirEntry::Unreadable => {},
            DirEntry::Directory(below) => {
                total += dir_size(below);
            },
            DirEntry::File { name, len } => {
                if *name != INDEX_FILE.to_owned() {
                    total += *len;
                }
            },
        }
        i += 1;
    }
    assert(entries@.take(i as int) =~= entries@);
    total
}

/// What two lists of entries hold together is what the one holds and what the other holds.
pub proof fn law_sizes_add(first: Seq<DirEntry>, second: Seq<DirEntry>)
    ensures
        total_data_bytes(first + second) == total_data_bytes(first) + total_data_bytes(second),
    decreases second.len(),
{
    if second.len() == 0 {
        assert(first + second =~= first);
    } else {
        assert((first + second).drop_last() =~= first + second.drop_last());
        law_sizes_add(first, second.drop_last());
    }
}

/// In which order a directory is listed does not matter.
pub proof fn law_listing_order(listed: Seq<DirEntry>, again: Seq<DirEntry>)
    requires
        listed.to_multiset() == again.to_multiset(),
    ensures
        total_data_bytes(listed) == total_data_bytes(again),
    decreases listed.len(),
{
    listed.to_multiset_ensures();
    again.to_multiset_ensures();
    assert(listed.len() == again.len());
    if listed.len() > 0 {
        let last = listed.last();
        assert(again.to_multiset().count(last) > 0) by {
            assert(listed.contains(last));
        }
        assert(again.contains(last));
        let k = choose|k: int| 0 <= k < again.len() && again[k] == last;
        let before = again.take(k);
        let after = again.skip(k + 1);
        assert(again =~= before + seq![last] + after);
        assert(again.remove(k) =~= before + after);
        assert(listed.remove(listed.len() - 1) =~= listed.drop_last());
        law_listing_order(listed.drop_last(), before + after);
        law_sizes_add(before, after);
        law_sizes_add(before, seq![last]);
        law_sizes_add(before + seq![last], after);
        assert(total_data_bytes(seq![last]) == last.data_bytes()) by {
            reveal_with_fuel(total_data_bytes, 2);
            assert(seq![last].drop_last() =~= Seq::<DirEntry>::empty());
        }
    }
}

/// An index file adds nothing, whatever its length.
pub proof fn law_index_files_do_not_count(entries: Seq<DirEntry>, name: String, len: u64)
    requires
        name@ == "data.arrow.index"@,
    ensures
        total_data_bytes(entries.push(DirEntry::File { name, len })) == total_data_bytes(entries),
{
    let more = entries.push(DirEntry::File { name, len });
    assert(more.drop_last() =~= entries);
    assert(more.last().data_bytes() == 0);
}

/// A file that is no index file adds its length, every byte of it.
pub proof fn law_data_files_count_in_full(entries: Seq<DirEntry>, name: String, len: u64)
    requires
        name@ != "data.arrow.index"@,
    ensures
        total_data_bytes(entries.push(DirEntry::File { name, len })) == total_data_bytes(entries)
            + len,
{
    let more = entries.push(DirEntry::File { name, len });
    assert(more.drop_last() =~= entries);
    assert(more.last().data_bytes() == len);
}

/// A directory adds what it holds, and an entry that cannot be read adds nothing.
pub proof fn law_directories_count_what_they_hold(entries: Seq<DirEntry>, below: Vec<DirEntry>)
    ensures
        total_data_bytes(Seq::<DirEntry>::empty()) == 0,
        total_data_bytes(entries.push(DirEntry::Directory(below))) == total_data_bytes(entries)
            + total_data_bytes(below@),
        total_data_bytes(entries.push(DirEntry::Unreadable)) == total_data_bytes(entries),
{
    let more = entries.push(DirEntry::Directory(below));
    assert(more.drop_last() =~= entries);
    assert(more.last().data_bytes() == total_data_bytes(below@)) by {
        reveal_with_fuel(DirEntry::data_bytes, 2);
    }
    let unreadable = entries.push(DirEntry::Unreadable);
    assert(unreadable.drop_last() =~= entries);
    assert(unreadable.last().data_bytes() == 0);
}

} // verus!
