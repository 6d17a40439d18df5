//! The line model of the artifacts: a file is a sequence of newline-free
//! lines, each terminated by one newline byte. Shard files are joined from
//! lines, read back as lines, and merged line by line into the combined
//! artifact, so line boundaries are never split.

use vstd::prelude::*;

verus! {

/// A well-formed line holds no newline byte.
pub open spec fn line_wf(l: Seq<u8>) -> bool {
    forall|i: int| 0 <= i < l.len() ==> l[i] != 0x0a
}

pub open spec fn all_lines_wf(lines: Seq<Seq<u8>>) -> bool {
    forall|i: int| 0 <= i < lines.len() ==> line_wf(#[trigger] lines[i])
}

/// The bytes of a file holding `lines`, each line newline-terminated.
pub open spec fn joined(lines: Seq<Seq<u8>>) -> Seq<u8>
    decreases lines.len(),
{
    if lines.len() == 0 {
        Seq::<u8>::empty()
    } else {
        lines[0] + seq![0x0au8] + joined(lines.drop_first())
    }
}

pub proof fn lemma_joined_push(lines: Seq<Seq<u8>>, l: Seq<u8>)
    ensures
        joined(lines.push(l)) == joined(lines) + l + seq![0x0au8],
    decreases lines.len(),
{
    if lines.len() == 0 {
        assert(lines.push(l)[0] == l);
        assert(lines.push(l).drop_first() =~= Seq::<Seq<u8>>::empty());
        assert(joined(Seq::<Seq<u8>>::empty()) == Seq::<u8>::empty());
        assert(joined(lines) == Seq::<u8>::empty());
        assert(joined(lines.push(l)) =~= joined(lines) + l + seq![0x0au8]);
    } else {
        assert(lines.push(l)[0] == lines[0]);
        assert(lines.push(l).drop_first() =~= lines.drop_first().push(l));
        lemma_joined_push(lines.drop_first(), l);
        assert(joined(lines.push(l)) == lines[0] + seq![0x0au8] + joined(
            lines.drop_first().push(l),
        ));
        assert(joined(lines.push(l)) =~= joined(lines) + l + seq![0x0au8]);
    }
}

/// Writes `lines` out as one byte buffer, each line followed by a newline.
pub fn join_lines(lines: &Vec<Vec<u8>>) -> (r: Vec<u8>)
    ensures
        r@ == joined(lines.deep_view()),
{
    let mut out: Vec<u8> = Vec::new();
    let mut i: usize = 0;
    while i < lines.len()
        invariant
            0 <= i <= lines@.len(),
            lines.deep_view().len() == lines@.len(),
            out@ == joined(lines.deep_view().take(i as int)),
        decreases lines@.len() - i,
    {
        let line = &lines[i];
        let mut j: usize = 0;
        while j < line.len()
            invariant
                0 <= j <= line@.len(),
                out@ == joined(lines.deep_view().take(i as int)) + line@.take(j as int),
            decreases line@.len() - j,
        {
            out.push(line[j]);
            proof {
                assert(line@.take(j as int).push(line@[j as int]) =~= line@.take(j as int + 1));
                assert(out@ =~= joined(lines.deep_view().take(i as int)) + line@.take(
                    j as int + 1,
                ));
            }
            j += 1;
        }
        out.push(0x0a);
        proof {
            assert(line@.take(line@.len() as int) =~= line@);
            assert(lines.deep_view()[i as int] == lines@[i as int].deep_view());
            assert(lines@[i as int].deep_view() =~= line@);
            lemma_joined_push(lines.deep_view().take(i as int), line@);
            assert(lines.deep_view().take(i as int).push(line@) =~= lines.deep_view().take(
                i as int + 1,
            ));
            assert(out@ =~= joined(lines.deep_view().take(i as int + 1)));
        }
        i += 1;
    }
    proof {
        assert(lines.deep_view().take(lines@.len() as int) =~= lines.deep_view());
    }
    out
}

/// Splits a byte buffer into its lines. A trailing fragment without a final
/// newline counts as one more line, as a line-by-line reader hands it back.
pub fn split_lines(data: &Vec<u8>) -> (r: Vec<Vec<u8>>)
    ensures
        all_lines_wf(r.deep_view()),
        data@.len() == 0 ==> r@.len() == 0,
        data@.len() > 0 && data@[data@.len() - 1] == 0x0a ==> joined(r.deep_view()) == data@,
        data@.len() > 0 && data@[data@.len() - 1] != 0x0a ==> joined(r.deep_view()) == data@
            + seq![0x0au8],
{
    let mut out: Vec<Vec<u8>> = Vec::new();
    let mut cur: Vec<u8> = Vec::new();
    let mut i: usize = 0;
    while i < data.len()
        invariant
            0 <= i <= data@.len(),
            all_lines_wf(out.deep_view()),
            line_wf(cur@),
            joined(out.deep_view()) + cur@ == data@.take(i as int),
        decreases data@.len() - i,
    {
        let b = data[i];
        proof {
            assert(data@.take(i as int).push(data@[i as int]) =~= data@.take(i as int + 1));
        }
        if b == 0x0a {
            proof {
                lemma_joined_push(out.deep_view(), cur@);
            }
            let ghost old_out = out.deep_view();
            let ghost old_cur = cur@;
            out.push(cur);
            cur = Vec::new();
            proof {
                assert(out.deep_view() =~~= old_out.push(old_cur));
                assert(joined(out.deep_view()) + cur@ =~= data@.take(i as int + 1));
                assert(all_lines_wf(out.deep_view()));
            }
        } else {
            cur.push(b);
            proof {
                assert(joined(out.deep_view()) + cur@ =~= data@.take(i as int + 1));
            }
        }
        i += 1;
    }
    proof {
        assert(data@.take(data@.len() as int) =~= data@);
    }
    if cur.len() > 0 {
        proof {
            lemma_joined_push(out.deep_view(), cur@);
            assert(data@.len() > 0);
            assert(data@[data@.len() - 1] != 0x0a) by {
                assert(cur@.len() > 0);
                assert(cur@[cur@.len() - 1] == data@[data@.len() - 1]);
            }
        }
        let ghost old_out = out.deep_view();
        let ghost old_cur = cur@;
        out.push(cur);
        proof {
            assert(out.deep_view() =~~= old_out.push(old_cur));
            assert(joined(out.deep_view()) =~= data@ + seq![0x0au8]);
            assert(all_lines_wf(out.deep_view()));
        }
    } else {
        proof {
            assert(joined(out.deep_view()) =~= data@);
            if data@.len() > 0 {
                assert(data@[data@.len() - 1] == 0x0a) by {
                    if data@[data@.len() - 1] != 0x0a {
                        lemma_joined_last_not_newline(out.deep_view());
                    }
                }
            } else {
                lemma_joined_empty_means_no_lines(out.deep_view());
            }
        }
    }
    out
}

/// A nonempty joined buffer always ends with the newline terminator.
proof fn lemma_joined_last_not_newline(lines: Seq<Seq<u8>>)
    ensures
        joined(lines).len() > 0 ==> joined(lines)[joined(lines).len() - 1] == 0x0a,
    decreases lines.len(),
{
    if lines.len() > 0 {
        lemma_joined_last_not_newline(lines.drop_first());
        if joined(lines.drop_first()).len() == 0 {
            assert(joined(lines) =~= lines[0] + seq![0x0au8]);
        }
    }
}

proof fn lemma_joined_empty_means_no_lines(lines: Seq<Seq<u8>>)
    ensures
        joined(lines).len() == 0 ==> lines.len() == 0,
{
    if lines.len() > 0 {
        assert(joined(lines).len() >= lines[0].len() + 1);
    }
}

/// Joining is injective on well-formed lines: two line sequences with the
/// same file bytes are the same lines. With the contracts of `join_lines`
/// and `split_lines`, reading a written shard file back yields exactly the
/// lines that were written.
pub proof fn lemma_joined_injective(a: Seq<Seq<u8>>, b: Seq<Seq<u8>>)
    requires
        all_lines_wf(a),
        all_lines_wf(b),
        joined(a) == joined(b),
    ensures
        a == b,
    decreases a.len(),
{
    if a.len() == 0 {
        lemma_joined_empty_means_no_lines(b);
        assert(a =~~= b);
    } else {
        assert(joined(a).len() >= a[0].len() + 1);
        if b.len() == 0 {
            assert(joined(b).len() == 0);
        }
        assert(b.len() > 0);
        let a0 = a[0];
        let b0 = b[0];
        assert(line_wf(a0));
        assert(line_wf(b0));
        assert(joined(a) == a0 + seq![0x0au8] + joined(a.drop_first()));
        assert(joined(b) == b0 + seq![0x0au8] + joined(b.drop_first()));
        assert(a0.len() == b0.len()) by {
            if a0.len() < b0.len() {
                assert(joined(a)[a0.len() as int] == 0x0a);
                assert(joined(b)[a0.len() as int] == b0[a0.len() as int]);
                assert(b0[a0.len() as int] != 0x0a);
            }
            if b0.len() < a0.len() {
                assert(joined(b)[b0.len() as int] == 0x0a);
                assert(joined(a)[b0.len() as int] == a0[b0.len() as int]);
                assert(a0[b0.len() as int] != 0x0a);
            }
        }
        assert(a0 =~= b0) by {
            assert(forall|i: int|
                0 <= i < a0.len() ==> joined(a)[i] == a0[i] && joined(b)[i] == #[trigger] b0[i]);
        }
        assert(joined(a.drop_first()) =~= joined(b.drop_first())) by {
            assert(joined(a).len() == joined(b).len());
            assert(joined(a.drop_first()).len() == joined(b.drop_first()).len());
            assert(forall|k: int|
                0 <= k < joined(a.drop_first()).len() ==> #[trigger] joined(a.drop_first())[k]
                    == joined(a)[k + a0.len() + 1]);
            assert(forall|k: int|
                0 <= k < joined(b.drop_first()).len() ==> #[trigger] joined(b.drop_first())[k]
                    == joined(b)[k + b0.len() + 1]);
        }
        assert(all_lines_wf(a.drop_first())) by {
            assert(forall|i: int|
                0 <= i < a.drop_first().len() ==> #[trigger] a.drop_first()[i] == a[i + 1]);
        }
        assert(all_lines_wf(b.drop_first())) by {
            assert(forall|i: int|
                0 <= i < b.drop_first().len() ==> #[trigger] b.drop_first()[i] == b[i + 1]);
        }
        lemma_joined_injective(a.drop_first(), b.drop_first());
        assert(a =~~= b) by {
            assert(forall|i: int|
                1 <= i < a.len() ==> #[trigger] a[i] == a.drop_first()[i - 1] && b[i]
                    == b.drop_first()[i - 1]);
        }
    }
}

/// All the lines of all the shards, shard after shard.
pub open spec fn concat_all(shards: Seq<Seq<Seq<u8>>>) -> Seq<Seq<u8>>
    decreases shards.len(),
{
    if shards.len() == 0 {
        Seq::<Seq<u8>>::empty()
    } else {
        shards[0] + concat_all(shards.drop_first())
    }
}

pub proof fn lemma_concat_all_push(shards: Seq<Seq<Seq<u8>>>, s: Seq<Seq<u8>>)
    ensures
        concat_all(shards.push(s)) == concat_all(shards) + s,
    decreases shards.len(),
{
    if shards.len() == 0 {
        assert(shards.push(s)[0] == s);
        assert(shards.push(s).drop_first() =~= Seq::<Seq<Seq<u8>>>::empty());
        assert(concat_all(shards) == Seq::<Seq<u8>>::empty());
        assert(concat_all(shards.push(s)) == s + concat_all(shards.push(s).drop_first()));
        assert(concat_all(shards.push(s)) =~~= concat_all(shards) + s);
    } else {
        assert(shards.push(s)[0] == shards[0]);
        assert(shards.push(s).drop_first() =~= shards.drop_first().push(s));
        lemma_concat_all_push(shards.drop_first(), s);
        assert(concat_all(shards.push(s)) == shards[0] + concat_all(shards.drop_first().push(s)));
        assert(concat_all(shards.push(s)) =~~= concat_all(shards) + s);
    }
}

/// Merges the shards' lines into one sequence of lines, shard by shard.
/// This is the serialized schedule of the consolidation: any interleaving
/// the lock admits yields the same number of lines, and never splits one.
pub fn merge_lines(shards: &Vec<Vec<Vec<u8>>>) -> (r: Vec<Vec<u8>>)
    ensures
        r.deep_view() == concat_all(shards.deep_view()),
{
    let mut out: Vec<Vec<u8>> = Vec::new();
    let mut i: usize = 0;
    while i < shards.len()
        invariant
            0 <= i <= shards@.len(),
            shards.deep_view().len() == shards@.len(),
            out.deep_view() == concat_all(shards.deep_view().take(i as int)),
        decreases shards@.len() - i,
    {
        let shard = &shards[i];
        let mut j: usize = 0;
        while j < shard.len()
            invariant
                0 <= j <= shard@.len(),
                shard.deep_view().len() == shard@.len(),
                out.deep_view() == concat_all(shards.deep_view().take(i as int))
                    + shard.deep_view().take(j as int),
            decreases shard@.len() - j,
        {
            let ghost old_out = out.deep_view();
            out.push(shard[j].clone());
            proof {
                assert(shard[j as int]@ == shard.deep_view()[j as int]);
                assert(out.deep_view() =~~= old_out.push(shard.deep_view()[j as int]));
                assert(shard.deep_view().take(j as int).push(shard.deep_view()[j as int])
                    =~= shard.deep_view().take(j as int + 1));
                assert(out.deep_view() =~= concat_all(shards.deep_view().take(i as int))
                    + shard.deep_view().take(j as int + 1));
            }
            j += 1;
        }
        proof {
            assert(shard.deep_view().take(shard@.len() as int) =~= shard.deep_view());
            lemma_concat_all_push(shards.deep_view().take(i as int), shard.deep_view());
            assert(shards.deep_view()[i as int] == shards@[i as int].deep_view());
            assert(shards.deep_view().take(i as int).push(shard.deep_view())
                =~= shards.deep_view().take(i as int + 1));
            assert(out.deep_view() =~= concat_all(shards.deep_view().take(i as int + 1)));
        }
        i += 1;
    }
    proof {
        assert(shards.deep_view().take(shards@.len() as int) =~= shards.deep_view());
    }
    out
}

/// The sum of the shards' line counts.
pub open spec fn total_line_count(shards: Seq<Seq<Seq<u8>>>) -> nat
    decreases shards.len(),
{
    if shards.len() == 0 {
        0
    } else {
        shards[0].len() + total_line_count(shards.drop_first())
    }
}

pub proof fn lemma_concat_all_len(shards: Seq<Seq<Seq<u8>>>)
    ensures
        concat_all(shards).len() == total_line_count(shards),
    decreases shards.len(),
{
    if shards.len() > 0 {
        lemma_concat_all_len(shards.drop_first());
    }
}

/// The sum of per-shard record counts.
pub open spec fn total_records(counts: Seq<nat>) -> nat
    decreases counts.len(),
{
    if counts.len() == 0 {
        0
    } else {
        counts[0] + total_records(counts.drop_first())
    }
}

/// However many partitions there are, the combined artifact holds exactly
/// two lines for every record the partitions returned: when each shard
/// holds twice its record count in lines, the merged lines number twice
/// the total record count.
pub proof fn lemma_combined_line_count(shards: Seq<Seq<Seq<u8>>>, counts: Seq<nat>)
    requires
        shards.len() == counts.len(),
        forall|i: int| 0 <= i < shards.len() ==> (#[trigger] shards[i]).len() == 2 * counts[i],
    ensures
        concat_all(shards).len() == 2 * total_records(counts),
    decreases shards.len(),
{
    lemma_concat_all_len(shards);
    if shards.len() > 0 {
        assert(shards[0].len() == 2 * counts[0]);
        lemma_combined_line_count(shards.drop_first(), counts.drop_first());
        lemma_concat_all_len(shards.drop_first());
    }
}

} // verus!
