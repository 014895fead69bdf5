//! Laws of license identifiers: normalizing is idempotent, and compatibility
//! does not change when the identifiers are normalized first.

use vstd::prelude::*;

use crate::licenses::{compatibility_of, normalized};
use crate::text::{all_ascii, ascii_upper_char, contains, find, is_ws, lemma_find, occurs_at, trim, trim_end, trim_start, uppercase};

verus! {

/// Whether `c` occurs in `s`.
spec fn has_char(s: Seq<char>, c: char) -> bool
    decreases s.len(),
{
    s.len() > 0 && (s.last() == c || has_char(s.drop_last(), c))
}

/// Without `has_char`, no position holds `c`.
proof fn lemma_has_char(s: Seq<char>, c: char, i: int)
    requires
        0 <= i < s.len(),
        s[i] == c,
    ensures
        has_char(s, c),
    decreases s.len(),
{
    if i < s.len() - 1 {
        lemma_has_char(s.drop_last(), c, i);
    }
}

/// A text contains what occurs in it.
proof fn lemma_contains_at(s: Seq<char>, p: Seq<char>, i: int)
    requires
        occurs_at(s, p, i),
    ensures
        contains(s, p),
{
    lemma_find(s, p);
}

/// A text lacking one character of `p` does not contain `p`.
proof fn lemma_lacks_char(s: Seq<char>, p: Seq<char>, k: int)
    requires
        0 <= k < p.len(),
        !has_char(s, p[k]),
    ensures
        !contains(s, p),
{
    lemma_find(s, p);
    if let Some(i) = find(s, p) {
        assert(s.subrange(i, i + p.len())[k] == s[i + k]);
        lemma_has_char(s, p[k], i + k);
    }
}

/// A text in which no occurrence of `p`'s first character is followed by
/// its second does not contain `p`.
proof fn lemma_lacks_pair(s: Seq<char>, p: Seq<char>)
    requires
        p.len() >= 2,
        forall|j: int| 0 <= j < s.len() - 1 ==> !(#[trigger] s[j] == p[0] && s[j + 1] == p[1]),
    ensures
        !contains(s, p),
{
    lemma_find(s, p);
    if let Some(i) = find(s, p) {
        assert(s.subrange(i, i + p.len())[0] == s[i]);
        assert(s.subrange(i, i + p.len())[1] == s[i + 1]);
    }
}

/// The literal texts that normalizing compares with, character by character.
proof fn lemma_literals()
    ensures
        "0BSD"@ == seq!['0', 'B', 'S', 'D'],
        "2"@ == seq!['2'],
        "2.0"@ == seq!['2', '.', '0'],
        "2.1"@ == seq!['2', '.', '1'],
        "3"@ == seq!['3'],
        "AFFERO"@ == seq!['A', 'F', 'F', 'E', 'R', 'O'],
        "AGPL"@ == seq!['A', 'G', 'P', 'L'],
        "AGPL-3.0"@ == seq!['A', 'G', 'P', 'L', '-', '3', '.', '0'],
        "APACHE"@ == seq!['A', 'P', 'A', 'C', 'H', 'E'],
        "APACHE-2.0"@ == seq!['A', 'P', 'A', 'C', 'H', 'E', '-', '2', '.', '0'],
        "Apache-2.0"@ == seq!['A', 'p', 'a', 'c', 'h', 'e', '-', '2', '.', '0'],
        "BSD"@ == seq!['B', 'S', 'D'],
        "BSD ZERO CLAUSE"@ == seq!['B', 'S', 'D', ' ', 'Z', 'E', 'R', 'O', ' ', 'C', 'L', 'A', 'U', 'S', 'E'],
        "BSD-2-CLAUSE"@ == seq!['B', 'S', 'D', '-', '2', '-', 'C', 'L', 'A', 'U', 'S', 'E'],
        "BSD-2-Clause"@ == seq!['B', 'S', 'D', '-', '2', '-', 'C', 'l', 'a', 'u', 's', 'e'],
        "BSD-3-CLAUSE"@ == seq!['B', 'S', 'D', '-', '3', '-', 'C', 'L', 'A', 'U', 'S', 'E'],
        "BSD-3-Clause"@ == seq!['B', 'S', 'D', '-', '3', '-', 'C', 'l', 'a', 'u', 's', 'e'],
        "BSD-ZERO-CLAUSE"@ == seq!['B', 'S', 'D', '-', 'Z', 'E', 'R', 'O', '-', 'C', 'L', 'A', 'U', 'S', 'E'],
        "CC0"@ == seq!['C', 'C', '0'],
        "CC0 1.0"@ == seq!['C', 'C', '0', ' ', '1', '.', '0'],
        "CC0-1.0"@ == seq!['C', 'C', '0', '-', '1', '.', '0'],
        "CREATIVE COMMONS ZERO"@ == seq!['C', 'R', 'E', 'A', 'T', 'I', 'V', 'E', ' ', 'C', 'O', 'M', 'M', 'O', 'N', 'S', ' ', 'Z', 'E', 'R', 'O'],
        "DO WHAT THE FUCK YOU WANT TO PUBLIC LICENSE"@ == seq!['D', 'O', ' ', 'W', 'H', 'A', 'T', ' ', 'T', 'H', 'E', ' ', 'F', 'U', 'C', 'K', ' ', 'Y', 'O', 'U', ' ', 'W', 'A', 'N', 'T', ' ', 'T', 'O', ' ', 'P', 'U', 'B', 'L', 'I', 'C', ' ', 'L', 'I', 'C', 'E', 'N', 'S', 'E'],
        "GPL"@ == seq!['G', 'P', 'L'],
        "GPL-2.0"@ == seq!['G', 'P', 'L', '-', '2', '.', '0'],
        "GPL-3.0"@ == seq!['G', 'P', 'L', '-', '3', '.', '0'],
        "ISC"@ == seq!['I', 'S', 'C'],
        "ISC LICENSE"@ == seq!['I', 'S', 'C', ' ', 'L', 'I', 'C', 'E', 'N', 'S', 'E'],
        "LGPL"@ == seq!['L', 'G', 'P', 'L'],
        "LGPL-2.1"@ == seq!['L', 'G', 'P', 'L', '-', '2', '.', '1'],
        "LGPL-3.0"@ == seq!['L', 'G', 'P', 'L', '-', '3', '.', '0'],
        "MIT"@ == seq!['M', 'I', 'T'],
        "MIT LICENSE"@ == seq!['M', 'I', 'T', ' ', 'L', 'I', 'C', 'E', 'N', 'S', 'E'],
        "MPL"@ == seq!['M', 'P', 'L'],
        "MPL-2.0"@ == seq!['M', 'P', 'L', '-', '2', '.', '0'],
        "THE UNLICENSE"@ == seq!['T', 'H', 'E', ' ', 'U', 'N', 'L', 'I', 'C', 'E', 'N', 'S', 'E'],
        "THREE"@ == seq!['T', 'H', 'R', 'E', 'E'],
        "TWO"@ == seq!['T', 'W', 'O'],
        "UNLICENSE"@ == seq!['U', 'N', 'L', 'I', 'C', 'E', 'N', 'S', 'E'],
        "Unlicense"@ == seq!['U', 'n', 'l', 'i', 'c', 'e', 'n', 's', 'e'],
        "WTFPL"@ == seq!['W', 'T', 'F', 'P', 'L'],
        "ZLIB"@ == seq!['Z', 'L', 'I', 'B'],
        "ZLIB LICENSE"@ == seq!['Z', 'L', 'I', 'B', ' ', 'L', 'I', 'C', 'E', 'N', 'S', 'E'],
        "Zlib"@ == seq!['Z', 'l', 'i', 'b'],
{
    reveal_strlit("0BSD");
    reveal_strlit("2");
    reveal_strlit("2.0");
    reveal_strlit("2.1");
    reveal_strlit("3");
    reveal_strlit("AFFERO");
    reveal_strlit("AGPL");
    reveal_strlit("AGPL-3.0");
    reveal_strlit("APACHE");
    reveal_strlit("APACHE-2.0");
    reveal_strlit("Apache-2.0");
    reveal_strlit("BSD");
    reveal_strlit("BSD ZERO CLAUSE");
    reveal_strlit("BSD-2-CLAUSE");
    reveal_strlit("BSD-2-Clause");
    reveal_strlit("BSD-3-CLAUSE");
    reveal_strlit("BSD-3-Clause");
    reveal_strlit("BSD-ZERO-CLAUSE");
    reveal_strlit("CC0");
    reveal_strlit("CC0 1.0");
    reveal_strlit("CC0-1.0");
    reveal_strlit("CREATIVE COMMONS ZERO");
    reveal_strlit("DO WHAT THE FUCK YOU WANT TO PUBLIC LICENSE");
    reveal_strlit("GPL");
    reveal_strlit("GPL-2.0");
    reveal_strlit("GPL-3.0");
    reveal_strlit("ISC");
    reveal_strlit("ISC LICENSE");
    reveal_strlit("LGPL");
    reveal_strlit("LGPL-2.1");
    reveal_strlit("LGPL-3.0");
    reveal_strlit("MIT");
    reveal_strlit("MIT LICENSE");
    reveal_strlit("MPL");
    reveal_strlit("MPL-2.0");
    reveal_strlit("THE UNLICENSE");
    reveal_strlit("THREE");
    reveal_strlit("TWO");
    reveal_strlit("UNLICENSE");
    reveal_strlit("Unlicense");
    reveal_strlit("WTFPL");
    reveal_strlit("ZLIB");
    reveal_strlit("ZLIB LICENSE");
    reveal_strlit("Zlib");
}

/// `0BSD` is its own normal form.
proof fn lemma_fixed_0bsd()
    ensures
        normalized("0BSD"@) == "0BSD"@,
{
    lemma_literals();
    let c = "0BSD"@;
    let u = "0BSD"@;
    assert(trim_start(c) == c);
    assert(trim_end(c) == c);
    assert(all_ascii(c));
    assert(uppercase(c) =~= u);
}

/// `AGPL-3.0` is its own normal form.
proof fn lemma_fixed_agpl_3_0()
    ensures
        normalized("AGPL-3.0"@) == "AGPL-3.0"@,
{
    lemma_literals();
    let c = "AGPL-3.0"@;
    let u = "AGPL-3.0"@;
    assert(trim_start(c) == c);
    assert(trim_end(c) == c);
    assert(all_ascii(c));
    assert(uppercase(c) =~= u);
    reveal_with_fuel(has_char, 9);
    lemma_lacks_char(u, "APACHE"@, 3);
    lemma_lacks_char(u, "2.0"@, 0);
    lemma_lacks_char(u, "2"@, 0);
    assert(u.subrange(0, 4) =~= "AGPL"@);
    lemma_contains_at(u, "AGPL"@, 0);
    assert(u.subrange(5, 6) =~= "3"@);
    lemma_contains_at(u, "3"@, 5);
}

/// `Apache-2.0` is its own normal form.
proof fn lemma_fixed_apache_2_0()
    ensures
        normalized("Apache-2.0"@) == "Apache-2.0"@,
{
    lemma_literals();
    let c = "Apache-2.0"@;
    let u = "APACHE-2.0"@;
    assert(trim_start(c) == c);
    assert(trim_end(c) == c);
    assert(all_ascii(c));
    assert(uppercase(c) =~= u);
    reveal_with_fuel(has_char, 11);
    assert(u.subrange(0, 6) =~= "APACHE"@);
    lemma_contains_at(u, "APACHE"@, 0);
    assert(u.subrange(7, 10) =~= "2.0"@);
    lemma_contains_at(u, "2.0"@, 7);
    assert(u.subrange(7, 8) =~= "2"@);
    lemma_contains_at(u, "2"@, 7);
}

/// `BSD-2-Clause` is its own normal form.
proof fn lemma_fixed_bsd_2_clause()
    ensures
        normalized("BSD-2-Clause"@) == "BSD-2-Clause"@,
{
    lemma_literals();
    let c = "BSD-2-Clause"@;
    let u = "BSD-2-CLAUSE"@;
    assert(trim_start(c) == c);
    assert(trim_end(c) == c);
    assert(all_ascii(c));
    assert(uppercase(c) =~= u);
    reveal_with_fuel(has_char, 13);
    lemma_lacks_char(u, "APACHE"@, 1);
    lemma_lacks_char(u, "2.0"@, 1);
    assert(u.subrange(4, 5) =~= "2"@);
    lemma_contains_at(u, "2"@, 4);
    lemma_lacks_char(u, "AGPL"@, 1);
    lemma_lacks_char(u, "3"@, 0);
    lemma_lacks_char(u, "AFFERO"@, 1);
    lemma_lacks_char(u, "GPL"@, 0);
    lemma_lacks_char(u, "LGPL"@, 1);
    lemma_lacks_char(u, "2.1"@, 1);
    lemma_lacks_char(u, "MPL"@, 0);
    assert(u.subrange(0, 3) =~= "BSD"@);
    lemma_contains_at(u, "BSD"@, 0);
    lemma_lacks_char(u, "THREE"@, 0);
    lemma_lacks_char(u, "TWO"@, 0);
}

/// `BSD-3-Clause` is its own normal form.
proof fn lemma_fixed_bsd_3_clause()
    ensures
        normalized("BSD-3-Clause"@) == "BSD-3-Clause"@,
{
    lemma_literals();
    let c = "BSD-3-Clause"@;
    let u = "BSD-3-CLAUSE"@;
    assert(trim_start(c) == c);
    assert(trim_end(c) == c);
    assert(all_ascii(c));
    assert(uppercase(c) =~= u);
    reveal_with_fuel(has_char, 13);
    lemma_lacks_char(u, "APACHE"@, 1);
    lemma_lacks_char(u, "2.0"@, 0);
    lemma_lacks_char(u, "2"@, 0);
    lemma_lacks_char(u, "AGPL"@, 1);
    assert(u.subrange(4, 5) =~= "3"@);
    lemma_contains_at(u, "3"@, 4);
    lemma_lacks_char(u, "AFFERO"@, 1);
    lemma_lacks_char(u, "GPL"@, 0);
    lemma_lacks_char(u, "LGPL"@, 1);
    lemma_lacks_char(u, "2.1"@, 0);
    lemma_lacks_char(u, "MPL"@, 0);
    assert(u.subrange(0, 3) =~= "BSD"@);
    lemma_contains_at(u, "BSD"@, 0);
    lemma_lacks_char(u, "THREE"@, 0);
}

/// `CC0-1.0` is its own normal form.
proof fn lemma_fixed_cc0_1_0()
    ensures
        normalized("CC0-1.0"@) == "CC0-1.0"@,
{
    lemma_literals();
    let c = "CC0-1.0"@;
    let u = "CC0-1.0"@;
    assert(trim_start(c) == c);
    assert(trim_end(c) == c);
    assert(all_ascii(c));
    assert(uppercase(c) =~= u);
}

/// `GPL-2.0` is its own normal form.
proof fn lemma_fixed_gpl_2_0()
    ensures
        normalized("GPL-2.0"@) == "GPL-2.0"@,
{
    lemma_literals();
    let c = "GPL-2.0"@;
    let u = "GPL-2.0"@;
    assert(trim_start(c) == c);
    assert(trim_end(c) == c);
    assert(all_ascii(c));
    assert(uppercase(c) =~= u);
    reveal_with_fuel(has_char, 8);
    lemma_lacks_char(u, "APACHE"@, 0);
    assert(u.subrange(4, 7) =~= "2.0"@);
    lemma_contains_at(u, "2.0"@, 4);
    assert(u.subrange(4, 5) =~= "2"@);
    lemma_contains_at(u, "2"@, 4);
    lemma_lacks_char(u, "AGPL"@, 0);
    lemma_lacks_char(u, "3"@, 0);
    lemma_lacks_char(u, "AFFERO"@, 0);
    assert(u.subrange(0, 3) =~= "GPL"@);
    lemma_contains_at(u, "GPL"@, 0);
    lemma_lacks_pair(u, "LGPL"@);
}

/// `GPL-3.0` is its own normal form.
proof fn lemma_fixed_gpl_3_0()
    ensures
        normalized("GPL-3.0"@) == "GPL-3.0"@,
{
    lemma_literals();
    let c = "GPL-3.0"@;
    let u = "GPL-3.0"@;
    assert(trim_start(c) == c);
    assert(trim_end(c) == c);
    assert(all_ascii(c));
    assert(uppercase(c) =~= u);
    reveal_with_fuel(has_char, 8);
    lemma_lacks_char(u, "APACHE"@, 0);
    lemma_lacks_char(u, "2.0"@, 0);
    lemma_lacks_char(u, "2"@, 0);
    lemma_lacks_char(u, "AGPL"@, 0);
    assert(u.subrange(4, 5) =~= "3"@);
    lemma_contains_at(u, "3"@, 4);
    lemma_lacks_char(u, "AFFERO"@, 0);
    assert(u.subrange(0, 3) =~= "GPL"@);
    lemma_contains_at(u, "GPL"@, 0);
    lemma_lacks_pair(u, "LGPL"@);
}

/// `ISC` is its own normal form.
proof fn lemma_fixed_isc()
    ensures
        normalized("ISC"@) == "ISC"@,
{
    lemma_literals();
    let c = "ISC"@;
    let u = "ISC"@;
    assert(trim_start(c) == c);
    assert(trim_end(c) == c);
    assert(all_ascii(c));
    assert(uppercase(c) =~= u);
}

/// `LGPL-2.1` is its own normal form.
proof fn lemma_fixed_lgpl_2_1()
    ensures
        normalized("LGPL-2.1"@) == "LGPL-2.1"@,
{
    lemma_literals();
    let c = "LGPL-2.1"@;
    let u = "LGPL-2.1"@;
    assert(trim_start(c) == c);
    assert(trim_end(c) == c);
    assert(all_ascii(c));
    assert(uppercase(c) =~= u);
    reveal_with_fuel(has_char, 9);
    lemma_lacks_char(u, "APACHE"@, 0);
    lemma_lacks_char(u, "2.0"@, 2);
    assert(u.subrange(5, 6) =~= "2"@);
    lemma_contains_at(u, "2"@, 5);
    lemma_lacks_char(u, "AGPL"@, 0);
    lemma_lacks_char(u, "3"@, 0);
    lemma_lacks_char(u, "AFFERO"@, 0);
    assert(u.subrange(1, 4) =~= "GPL"@);
    lemma_contains_at(u, "GPL"@, 1);
    assert(u.subrange(0, 4) =~= "LGPL"@);
    lemma_contains_at(u, "LGPL"@, 0);
    assert(u.subrange(5, 8) =~= "2.1"@);
    lemma_contains_at(u, "2.1"@, 5);
}

/// `LGPL-3.0` is its own normal form.
proof fn lemma_fixed_lgpl_3_0()
    ensures
        normalized("LGPL-3.0"@) == "LGPL-3.0"@,
{
    lemma_literals();
    let c = "LGPL-3.0"@;
    let u = "LGPL-3.0"@;
    assert(trim_start(c) == c);
    assert(trim_end(c) == c);
    assert(all_ascii(c));
    assert(uppercase(c) =~= u);
    reveal_with_fuel(has_char, 9);
    lemma_lacks_char(u, "APACHE"@, 0);
    lemma_lacks_char(u, "2.0"@, 0);
    lemma_lacks_char(u, "2"@, 0);
    lemma_lacks_char(u, "AGPL"@, 0);
    assert(u.subrange(5, 6) =~= "3"@);
    lemma_contains_at(u, "3"@, 5);
    lemma_lacks_char(u, "AFFERO"@, 0);
    assert(u.subrange(1, 4) =~= "GPL"@);
    lemma_contains_at(u, "GPL"@, 1);
    assert(u.subrange(0, 4) =~= "LGPL"@);
    lemma_contains_at(u, "LGPL"@, 0);
}

/// `MIT` is its own normal form.
proof fn lemma_fixed_mit()
    ensures
        normalized("MIT"@) == "MIT"@,
{
    lemma_literals();
    let c = "MIT"@;
    let u = "MIT"@;
    assert(trim_start(c) == c);
    assert(trim_end(c) == c);
    assert(all_ascii(c));
    assert(uppercase(c) =~= u);
}

/// `MPL-2.0` is its own normal form.
proof fn lemma_fixed_mpl_2_0()
    ensures
        normalized("MPL-2.0"@) == "MPL-2.0"@,
{
    lemma_literals();
    let c = "MPL-2.0"@;
    let u = "MPL-2.0"@;
    assert(trim_start(c) == c);
    assert(trim_end(c) == c);
    assert(all_ascii(c));
    assert(uppercase(c) =~= u);
    reveal_with_fuel(has_char, 8);
    lemma_lacks_char(u, "APACHE"@, 0);
    assert(u.subrange(4, 7) =~= "2.0"@);
    lemma_contains_at(u, "2.0"@, 4);
    assert(u.subrange(4, 5) =~= "2"@);
    lemma_contains_at(u, "2"@, 4);
    lemma_lacks_char(u, "AGPL"@, 0);
    lemma_lacks_char(u, "3"@, 0);
    lemma_lacks_char(u, "AFFERO"@, 0);
    lemma_lacks_char(u, "GPL"@, 0);
    lemma_lacks_char(u, "LGPL"@, 1);
    lemma_lacks_char(u, "2.1"@, 2);
    assert(u.subrange(0, 3) =~= "MPL"@);
    lemma_contains_at(u, "MPL"@, 0);
}

/// `Unlicense` is its own normal form.
proof fn lemma_fixed_unlicense()
    ensures
        normalized("Unlicense"@) == "Unlicense"@,
{
    lemma_literals();
    let c = "Unlicense"@;
    let u = "UNLICENSE"@;
    assert(trim_start(c) == c);
    assert(trim_end(c) == c);
    assert(all_ascii(c));
    assert(uppercase(c) =~= u);
}

/// `WTFPL` is its own normal form.
proof fn lemma_fixed_wtfpl()
    ensures
        normalized("WTFPL"@) == "WTFPL"@,
{
    lemma_literals();
    let c = "WTFPL"@;
    let u = "WTFPL"@;
    assert(trim_start(c) == c);
    assert(trim_end(c) == c);
    assert(all_ascii(c));
    assert(uppercase(c) =~= u);
}

/// `Zlib` is its own normal form.
proof fn lemma_fixed_zlib()
    ensures
        normalized("Zlib"@) == "Zlib"@,
{
    lemma_literals();
    let c = "Zlib"@;
    let u = "ZLIB"@;
    assert(trim_start(c) == c);
    assert(trim_end(c) == c);
    assert(all_ascii(c));
    assert(uppercase(c) =~= u);
}

/// Normalizing a license identifier twice gives what normalizing once
/// gives: every identifier that normalizing produces is its own normal form.
pub proof fn law_normalize_idempotent(id: Seq<char>)
    ensures
        normalized(normalized(id)) == normalized(id),
{
    let m = normalized(id);
    if m == "0BSD"@ {
        lemma_fixed_0bsd();
    } else if m == "AGPL-3.0"@ {
        lemma_fixed_agpl_3_0();
    } else if m == "Apache-2.0"@ {
        lemma_fixed_apache_2_0();
    } else if m == "BSD-2-Clause"@ {
        lemma_fixed_bsd_2_clause();
    } else if m == "BSD-3-Clause"@ {
        lemma_fixed_bsd_3_clause();
    } else if m == "CC0-1.0"@ {
        lemma_fixed_cc0_1_0();
    } else if m == "GPL-2.0"@ {
        lemma_fixed_gpl_2_0();
    } else if m == "GPL-3.0"@ {
        lemma_fixed_gpl_3_0();
    } else if m == "ISC"@ {
        lemma_fixed_isc();
    } else if m == "LGPL-2.1"@ {
        lemma_fixed_lgpl_2_1();
    } else if m == "LGPL-3.0"@ {
        lemma_fixed_lgpl_3_0();
    } else if m == "MIT"@ {
        lemma_fixed_mit();
    } else if m == "MPL-2.0"@ {
        lemma_fixed_mpl_2_0();
    } else if m == "Unlicense"@ {
        lemma_fixed_unlicense();
    } else if m == "WTFPL"@ {
        lemma_fixed_wtfpl();
    } else if m == "Zlib"@ {
        lemma_fixed_zlib();
    }
}

/// The compatibility of two licenses does not change when their identifiers
/// are normalized first.
pub proof fn law_compatibility_normalized(
    dependency: Seq<char>,
    project: Seq<char>,
    strict: bool,
    matrix: Seq<(String, Vec<String>)>,
)
    ensures
        compatibility_of(normalized(dependency), normalized(project), strict, matrix) == compatibility_of(
            dependency,
            project,
            strict,
            matrix,
        ),
{
    law_normalize_idempotent(dependency);
    law_normalize_idempotent(project);
}

} // verus!
