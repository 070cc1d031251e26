//! Precomputed roots of unity of power-of-two order.
use crate::canonical::Elem;
use crate::field::{fmul, lemma_modp_small, P};
use vstd::prelude::*;

verus! {

/// The largest `k` for which the tables hold a root of unity of order `2^k`.
pub const MAX_ROU_PO2: usize = 27;

/// Entry `k` generates the subgroup of order `2^k`.
pub open spec fn rou_fwd_table() -> Seq<int> {
    seq![
        1, 2013265920, 284861408, 1801542727, 567209306, 740045640, 918899846, 1881002012,
        1453957774, 65325759, 1538055801, 515192888, 483885487, 157393079, 1695124103, 2005211659,
        1540072241, 88064245, 1542985445, 1269900459, 1461624142, 825701067, 682402162, 1311873874,
        1164520853, 352275361, 18769, 137,
    ]
}

/// Entry `k` is the inverse of entry `k` of [`rou_fwd_table`].
pub open spec fn rou_rev_table() -> Seq<int> {
    seq![
        1, 2013265920, 1728404513, 1592366214, 196396260, 1253260071, 72041623, 1091445674,
        145223211, 1446820157, 1030796471, 2010749425, 1827366325, 1239938613, 246299276,
        596347512, 1893145354, 246074437, 1525739923, 1194341128, 1463599021, 704606912, 95395244,
        15672543, 647517488, 584175179, 137728885, 749463956,
    ]
}

/// The tables are consistent: entry `0` is one, entry `1` is `-1`, each entry
/// squares to the one before it (so entry `k` has order exactly `2^k`), and
/// each forward entry times its inverse entry is one.
pub proof fn lemma_roots_of_unity(k: int)
    requires
        0 <= k <= MAX_ROU_PO2,
    ensures
        rou_fwd_table().len() == MAX_ROU_PO2 + 1,
        rou_rev_table().len() == MAX_ROU_PO2 + 1,
        rou_fwd_table()[0] == 1,
        rou_fwd_table()[1] == P - 1,
        0 <= rou_fwd_table()[k] < P,
        0 <= rou_rev_table()[k] < P,
        k > 0 ==> fmul(rou_fwd_table()[k], rou_fwd_table()[k]) == rou_fwd_table()[k - 1],
        fmul(rou_fwd_table()[k], rou_rev_table()[k]) == 1,
{
    let f = rou_fwd_table();
    let r = rou_rev_table();
    assert(f.len() == 28 && r.len() == 28);
    assert(k > 0 ==> f[k] * f[k] % (P as int) == f[k - 1]) by {
        if k > 0 {
            assert(f[1] * f[1] % (P as int) == f[0]);
            assert(f[2] * f[2] % (P as int) == f[1]);
            assert(f[3] * f[3] % (P as int) == f[2]);
            assert(f[4] * f[4] % (P as int) == f[3]);
            assert(f[5] * f[5] % (P as int) == f[4]);
            assert(f[6] * f[6] % (P as int) == f[5]);
            assert(f[7] * f[7] % (P as int) == f[6]);
            assert(f[8] * f[8] % (P as int) == f[7]);
            assert(f[9] * f[9] % (P as int) == f[8]);
            assert(f[10] * f[10] % (P as int) == f[9]);
            assert(f[11] * f[11] % (P as int) == f[10]);
            assert(f[12] * f[12] % (P as int) == f[11]);
            assert(f[13] * f[13] % (P as int) == f[12]);
            assert(f[14] * f[14] % (P as int) == f[13]);
            assert(f[15] * f[15] % (P as int) == f[14]);
            assert(f[16] * f[16] % (P as int) == f[15]);
            assert(f[17] * f[17] % (P as int) == f[16]);
            assert(f[18] * f[18] % (P as int) == f[17]);
            assert(f[19] * f[19] % (P as int) == f[18]);
            assert(f[20] * f[20] % (P as int) == f[19]);
            assert(f[21] * f[21] % (P as int) == f[20]);
            assert(f[22] * f[22] % (P as int) == f[21]);
            assert(f[23] * f[23] % (P as int) == f[22]);
            assert(f[24] * f[24] % (P as int) == f[23]);
            assert(f[25] * f[25] % (P as int) == f[24]);
            assert(f[26] * f[26] % (P as int) == f[25]);
            assert(f[27] * f[27] % (P as int) == f[26]);
            assert(k == 1 || k == 2 || k == 3 || k == 4 || k == 5 || k == 6 || k == 7 || k == 8
                || k == 9 || k == 10 || k == 11 || k == 12 || k == 13 || k == 14 || k == 15 || k
                == 16 || k == 17 || k == 18 || k == 19 || k == 20 || k == 21 || k == 22 || k == 23
                || k == 24 || k == 25 || k == 26 || k == 27);
        }
    }
    assert(f[k] * r[k] % (P as int) == 1) by {
        assert(f[0] * r[0] % (P as int) == 1);
        assert(f[1] * r[1] % (P as int) == 1);
        assert(f[2] * r[2] % (P as int) == 1);
        assert(f[3] * r[3] % (P as int) == 1);
        assert(f[4] * r[4] % (P as int) == 1);
        assert(f[5] * r[5] % (P as int) == 1);
        assert(f[6] * r[6] % (P as int) == 1);
        assert(f[7] * r[7] % (P as int) == 1);
        assert(f[8] * r[8] % (P as int) == 1);
        assert(f[9] * r[9] % (P as int) == 1);
        assert(f[10] * r[10] % (P as int) == 1);
        assert(f[11] * r[11] % (P as int) == 1);
        assert(f[12] * r[12] % (P as int) == 1);
        assert(f[13] * r[13] % (P as int) == 1);
        assert(f[14] * r[14] % (P as int) == 1);
        assert(f[15] * r[15] % (P as int) == 1);
        assert(f[16] * r[16] % (P as int) == 1);
        assert(f[17] * r[17] % (P as int) == 1);
        assert(f[18] * r[18] % (P as int) == 1);
        assert(f[19] * r[19] % (P as int) == 1);
        assert(f[20] * r[20] % (P as int) == 1);
        assert(f[21] * r[21] % (P as int) == 1);
        assert(f[22] * r[22] % (P as int) == 1);
        assert(f[23] * r[23] % (P as int) == 1);
        assert(f[24] * r[24] % (P as int) == 1);
        assert(f[25] * r[25] % (P as int) == 1);
        assert(f[26] * r[26] % (P as int) == 1);
        assert(f[27] * r[27] % (P as int) == 1);
        assert(k == 0 || k == 1 || k == 2 || k == 3 || k == 4 || k == 5 || k == 6 || k == 7 || k
            == 8 || k == 9 || k == 10 || k == 11 || k == 12 || k == 13 || k == 14 || k == 15 || k
            == 16 || k == 17 || k == 18 || k == 19 || k == 20 || k == 21 || k == 22 || k == 23
            || k == 24 || k == 25 || k == 26 || k == 27);
    }
}

impl Elem {
    /// The largest `k` for which the tables hold a root of unity of order `2^k`.
    pub const MAX_ROU_PO2: usize = MAX_ROU_PO2;

    /// A generator of the subgroup of order `2^k`, from the forward table.
    pub fn rou_fwd(k: usize) -> (r: Elem)
        requires
            k <= MAX_ROU_PO2,
        ensures
            r@ == rou_fwd_table()[k as int],
    {
        let table: [u32; 28] = [
            1, 2013265920, 284861408, 1801542727, 567209306, 740045640, 918899846, 1881002012,
            1453957774, 65325759, 1538055801, 515192888, 483885487, 157393079, 1695124103,
            2005211659, 1540072241, 88064245, 1542985445, 1269900459, 1461624142, 825701067,
            682402162, 1311873874, 1164520853, 352275361, 18769, 137,
        ];
        proof {
            assert(table@ =~= rou_fwd_table().map_values(|v: int| v as u32));
            lemma_modp_small(rou_fwd_table()[k as int]);
            lemma_roots_of_unity(k as int);
        }
        Elem::new(table[k])
    }

    /// The inverse of [`Elem::rou_fwd`]`(k)`, from the inverse table.
    pub fn rou_rev(k: usize) -> (r: Elem)
        requires
            k <= MAX_ROU_PO2,
        ensures
            r@ == rou_rev_table()[k as int],
    {
        let table: [u32; 28] = [
            1, 2013265920, 1728404513, 1592366214, 196396260, 1253260071, 72041623, 1091445674,
            145223211, 1446820157, 1030796471, 2010749425, 1827366325, 1239938613, 246299276,
            596347512, 1893145354, 246074437, 1525739923, 1194341128, 1463599021, 704606912,
            95395244, 15672543, 647517488, 584175179, 137728885, 749463956,
        ];
        proof {
            assert(table@ =~= rou_rev_table().map_values(|v: int| v as u32));
            lemma_modp_small(rou_rev_table()[k as int]);
            lemma_roots_of_unity(k as int);
        }
        Elem::new(table[k])
    }
}

} // verus!
