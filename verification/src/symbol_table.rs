//! The symbol table: a map from symbolic names to 15-bit addresses,
//! seeded with the machine's fixed registers and memory-mapped regions,
//! grown by label bindings and variable allocation.

use vstd::prelude::*;
use vstd::string::StringExecFns;
use crate::text::str_eq;
use crate::errors::AsmError;
use crate::errors::AsmErrorModel;

verus! {

/// Map described by an association list; a later entry would win, and the
/// well-formedness invariant keeps keys unique so the question never arises.
spec fn assoc_map(s: Seq<(String, u16)>) -> Map<Seq<char>, u16>
    decreases s.len(),
{
    if s.len() == 0 {
        Map::empty()
    } else {
        assoc_map(s.drop_last()).insert(s.last().0@, s.last().1)
    }
}

proof fn lemma_assoc_contains(s: Seq<(String, u16)>, k: Seq<char>)
    ensures
        assoc_map(s).contains_key(k) <==> exists|i: int| 0 <= i < s.len() && s[i].0@ == k,
    decreases s.len(),
{
    if s.len() == 0 {
    } else {
        lemma_assoc_contains(s.drop_last(), k);
        if s.last().0@ == k {
            assert(s[s.len() - 1].0@ == k);
        } else if assoc_map(s).contains_key(k) {
            let i = choose|i: int| 0 <= i < s.drop_last().len() && s.drop_last()[i].0@ == k;
            assert(s[i].0@ == k);
        } else if exists|i: int| 0 <= i < s.len() && s[i].0@ == k {
            let i = choose|i: int| 0 <= i < s.len() && s[i].0@ == k;
            assert(s.drop_last()[i].0@ == k);
        }
    }
}

proof fn lemma_assoc_lookup(s: Seq<(String, u16)>, i: int)
    requires
        0 <= i < s.len(),
        forall|p: int, q: int| 0 <= p < q < s.len() ==> s[p].0@ != s[q].0@,
    ensures
        assoc_map(s).contains_key(s[i].0@),
        assoc_map(s)[s[i].0@] == s[i].1,
    decreases s.len(),
{
    if i == s.len() - 1 {
    } else {
        lemma_assoc_lookup(s.drop_last(), i);
        assert(s.drop_last()[i] == s[i]);
        assert(s[i].0@ != s[s.len() - 1].0@);
    }
}

/// The symbols every program may use without declaring them: the sixteen
/// register aliases at addresses 0 through 15, the five frame registers
/// at addresses 0 through 4, and the two memory-mapped regions.
pub open spec fn predefined_symbols() -> Map<Seq<char>, u16> {
    Map::empty().insert("R0"@, 0).insert("R1"@, 1).insert("R2"@, 2).insert("R3"@, 3).insert(
        "R4"@,
        4,
    ).insert("R5"@, 5).insert("R6"@, 6).insert("R7"@, 7).insert("R8"@, 8).insert("R9"@, 9).insert(
        "R10"@,
        10,
    ).insert("R11"@, 11).insert("R12"@, 12).insert("R13"@, 13).insert("R14"@, 14).insert(
        "R15"@,
        15,
    ).insert("SP"@, 0).insert("LCL"@, 1).insert("ARG"@, 2).insert("THIS"@, 3).insert(
        "THAT"@,
        4,
    ).insert("SCREEN"@, 16384).insert("KBD"@, 24576)
}

/// The predefined bindings, one fact per symbol, together with the
/// five pairs of distinct names that share an address. Every other
/// name inequality the proofs need follows by congruence: two names
/// bound to different addresses cannot be equal.
#[verifier::rlimit(100)]
proof fn lemma_predefined_table()
    ensures
        predefined_symbols()["R0"@] == 0,
        predefined_symbols()["R1"@] == 1,
        predefined_symbols()["R2"@] == 2,
        predefined_symbols()["R3"@] == 3,
        predefined_symbols()["R4"@] == 4,
        predefined_symbols()["R5"@] == 5,
        predefined_symbols()["R6"@] == 6,
        predefined_symbols()["R7"@] == 7,
        predefined_symbols()["R8"@] == 8,
        predefined_symbols()["R9"@] == 9,
        predefined_symbols()["R10"@] == 10,
        predefined_symbols()["R11"@] == 11,
        predefined_symbols()["R12"@] == 12,
        predefined_symbols()["R13"@] == 13,
        predefined_symbols()["R14"@] == 14,
        predefined_symbols()["R15"@] == 15,
        predefined_symbols()["SP"@] == 0,
        predefined_symbols()["LCL"@] == 1,
        predefined_symbols()["ARG"@] == 2,
        predefined_symbols()["THIS"@] == 3,
        predefined_symbols()["THAT"@] == 4,
        predefined_symbols()["SCREEN"@] == 16384,
        predefined_symbols()["KBD"@] == 24576,
        "R0"@ != "SP"@,
        "R1"@ != "LCL"@,
        "R2"@ != "ARG"@,
        "R3"@ != "THIS"@,
        "R4"@ != "THAT"@,
{
    reveal_strlit("R0");
    reveal_strlit("R1");
    reveal_strlit("R2");
    reveal_strlit("R3");
    reveal_strlit("R4");
    reveal_strlit("R5");
    reveal_strlit("R6");
    reveal_strlit("R7");
    reveal_strlit("R8");
    reveal_strlit("R9");
    reveal_strlit("R10");
    reveal_strlit("R11");
    reveal_strlit("R12");
    reveal_strlit("R13");
    reveal_strlit("R14");
    reveal_strlit("R15");
    reveal_strlit("SP");
    reveal_strlit("LCL");
    reveal_strlit("ARG");
    reveal_strlit("THIS");
    reveal_strlit("THAT");
    reveal_strlit("SCREEN");
    reveal_strlit("KBD");
    assert("R0"@.len() == 2);
    assert("R1"@.len() == 2);
    assert("R2"@.len() == 2);
    assert("R3"@.len() == 2);
    assert("R4"@.len() == 2);
    assert("R5"@.len() == 2);
    assert("R6"@.len() == 2);
    assert("R7"@.len() == 2);
    assert("R8"@.len() == 2);
    assert("R9"@.len() == 2);
    assert("R10"@.len() == 3);
    assert("R11"@.len() == 3);
    assert("R12"@.len() == 3);
    assert("R13"@.len() == 3);
    assert("R14"@.len() == 3);
    assert("R15"@.len() == 3);
    assert("SP"@.len() == 2);
    assert("LCL"@.len() == 3);
    assert("ARG"@.len() == 3);
    assert("THIS"@.len() == 4);
    assert("THAT"@.len() == 4);
    assert("SCREEN"@.len() == 6);
    assert("KBD"@.len() == 3);
    assert("R0"@[0] == 'R');
    assert("R0"@[1] == '0');
    assert("R1"@[0] == 'R');
    assert("R1"@[1] == '1');
    assert("R2"@[0] == 'R');
    assert("R2"@[1] == '2');
    assert("R3"@[0] == 'R');
    assert("R3"@[1] == '3');
    assert("R4"@[0] == 'R');
    assert("R4"@[1] == '4');
    assert("R5"@[0] == 'R');
    assert("R5"@[1] == '5');
    assert("R6"@[0] == 'R');
    assert("R6"@[1] == '6');
    assert("R7"@[0] == 'R');
    assert("R7"@[1] == '7');
    assert("R8"@[0] == 'R');
    assert("R8"@[1] == '8');
    assert("R9"@[0] == 'R');
    assert("R9"@[1] == '9');
    assert("R10"@[0] == 'R');
    assert("R10"@[1] == '1');
    assert("R10"@[2] == '0');
    assert("R11"@[0] == 'R');
    assert("R11"@[1] == '1');
    assert("R11"@[2] == '1');
    assert("R12"@[0] == 'R');
    assert("R12"@[1] == '1');
    assert("R12"@[2] == '2');
    assert("R13"@[0] == 'R');
    assert("R13"@[1] == '1');
    assert("R13"@[2] == '3');
    assert("R14"@[0] == 'R');
    assert("R14"@[1] == '1');
    assert("R14"@[2] == '4');
    assert("R15"@[0] == 'R');
    assert("R15"@[1] == '1');
    assert("R15"@[2] == '5');
    assert("SP"@[0] == 'S');
    assert("SP"@[1] == 'P');
    assert("LCL"@[0] == 'L');
    assert("LCL"@[1] == 'C');
    assert("LCL"@[2] == 'L');
    assert("ARG"@[0] == 'A');
    assert("ARG"@[1] == 'R');
    assert("ARG"@[2] == 'G');
    assert("THIS"@[0] == 'T');
    assert("THIS"@[1] == 'H');
    assert("THIS"@[2] == 'I');
    assert("THIS"@[3] == 'S');
    assert("THAT"@[0] == 'T');
    assert("THAT"@[1] == 'H');
    assert("THAT"@[2] == 'A');
    assert("THAT"@[3] == 'T');
    assert("SCREEN"@[0] == 'S');
    assert("SCREEN"@[1] == 'C');
    assert("SCREEN"@[2] == 'R');
    assert("SCREEN"@[3] == 'E');
    assert("SCREEN"@[4] == 'E');
    assert("SCREEN"@[5] == 'N');
    assert("KBD"@[0] == 'K');
    assert("KBD"@[1] == 'B');
    assert("KBD"@[2] == 'D');
}

/// Symbolic name resolution for the assembler. Addresses are 15-bit
/// values; variables are allocated consecutively from address 16 up.
pub struct SymbolTable {
    entries: Vec<(String, u16)>,
    next_variable: u16,
}

impl View for SymbolTable {
    type V = Map<Seq<char>, u16>;

    closed spec fn view(&self) -> Map<Seq<char>, u16> {
        assoc_map(self.entries@)
    }
}

impl SymbolTable {
    /// The address the next fresh variable will receive.
    pub closed spec fn next_var(self) -> u16 {
        self.next_variable
    }

    /// Names are bound at most once, all addresses fit in fifteen bits,
    /// and variable allocation has not run past the address space.
    pub closed spec fn wf(self) -> bool {
        &&& forall|p: int, q: int|
            0 <= p < q < self.entries@.len() ==> self.entries@[p].0@ != self.entries@[q].0@
        &&& forall|i: int| 0 <= i < self.entries@.len() ==> (#[trigger] self.entries@[i].1) < 32768
        &&& 16 <= self.next_variable <= 32768
    }

    /// A fresh table holding exactly the predefined symbols, with
    /// variable allocation starting at address 16.
    #[verifier::rlimit(100)]
    pub fn new() -> (r: SymbolTable)
        ensures
            r.wf(),
            r@ == predefined_symbols(),
            r.next_var() == 16,
    {
        let mut entries: Vec<(String, u16)> = Vec::new();
        entries.push((String::from_str("R0"), 0));
        entries.push((String::from_str("R1"), 1));
        entries.push((String::from_str("R2"), 2));
        entries.push((String::from_str("R3"), 3));
        entries.push((String::from_str("R4"), 4));
        entries.push((String::from_str("R5"), 5));
        entries.push((String::from_str("R6"), 6));
        entries.push((String::from_str("R7"), 7));
        entries.push((String::from_str("R8"), 8));
        entries.push((String::from_str("R9"), 9));
        entries.push((String::from_str("R10"), 10));
        entries.push((String::from_str("R11"), 11));
        entries.push((String::from_str("R12"), 12));
        entries.push((String::from_str("R13"), 13));
        entries.push((String::from_str("R14"), 14));
        entries.push((String::from_str("R15"), 15));
        entries.push((String::from_str("SP"), 0));
        entries.push((String::from_str("LCL"), 1));
        entries.push((String::from_str("ARG"), 2));
        entries.push((String::from_str("THIS"), 3));
        entries.push((String::from_str("THAT"), 4));
        entries.push((String::from_str("SCREEN"), 16384));
        entries.push((String::from_str("KBD"), 24576));
        let r = SymbolTable { entries, next_variable: 16 };
        proof {
            lemma_predefined_table();
            reveal_with_fuel(assoc_map, 25);
            assert(r@ =~= predefined_symbols());
        }
        r
    }

    /// The next address variable allocation will hand out.
    pub fn next_free(&self) -> (r: u16)
        ensures
            r == self.next_var(),
    {
        self.next_variable
    }

    /// Whether `symbol` is bound.
    pub fn contains(&self, symbol: &str) -> (r: bool)
        ensures
            r == self@.contains_key(symbol@),
    {
        let n = self.entries.len();
        let mut i: usize = 0;
        while i < n
            invariant
                0 <= i <= n,
                n == self.entries@.len(),
                forall|j: int| 0 <= j < i ==> self.entries@[j].0@ != symbol@,
            decreases n - i,
        {
            if str_eq(self.entries[i].0.as_str(), symbol) {
                proof {
                    lemma_assoc_contains(self.entries@, symbol@);
                }
                return true;
            }
            i = i + 1;
        }
        proof {
            lemma_assoc_contains(self.entries@, symbol@);
        }
        false
    }

    /// The address bound to `symbol`, if any.
    pub fn get_address(&self, symbol: &str) -> (r: Option<u16>)
        requires
            self.wf(),
        ensures
            r == if self@.contains_key(symbol@) {
                Some(self@[symbol@])
            } else {
                None::<u16>
            },
            r matches Some(a) ==> a < 32768,
    {
        let n = self.entries.len();
        let mut i: usize = 0;
        while i < n
            invariant
                0 <= i <= n,
                self.wf(),
                n == self.entries@.len(),
                forall|j: int| 0 <= j < i ==> self.entries@[j].0@ != symbol@,
            decreases n - i,
        {
            if str_eq(self.entries[i].0.as_str(), symbol) {
                proof {
                    lemma_assoc_lookup(self.entries@, i as int);
                }
                return Some(self.entries[i].1);
            }
            i = i + 1;
        }
        proof {
            lemma_assoc_contains(self.entries@, symbol@);
        }
        None
    }

    /// Binds a name. An unbound name is inserted; binding a bound name
    /// to its existing address changes nothing; binding it to a
    /// different address is a reported redeclaration, and the existing
    /// binding is never silently replaced.
    pub fn add_entry(&mut self, symbol: String, address: u16) -> (r: Result<(), AsmError>)
        requires
            old(self).wf(),
            address < 32768,
        ensures
            final(self).wf(),
            final(self).next_var() == old(self).next_var(),
            ({
                let m = old(self)@;
                if !m.contains_key(symbol@) {
                    r is Ok && final(self)@ == m.insert(symbol@, address)
                } else if m[symbol@] == address {
                    r is Ok && final(self)@ == m
                } else {
                    (r matches Err(e) && e@ == AsmErrorModel::DuplicateLabel(symbol@))
                        && final(self)@ == m
                }
            }),
    {
        match self.get_address(symbol.as_str()) {
            Some(existing) => {
                if existing == address {
                    Ok(())
                } else {
                    Err(AsmError::DuplicateLabel(symbol))
                }
            },
            None => {
                proof {
                    lemma_assoc_contains(self.entries@, symbol@);
                }
                let ghost pre = self.entries@;
                self.entries.push((symbol, address));
                proof {
                    assert(self.entries@.drop_last() =~= pre);
                }
                Ok(())
            },
        }
    }

    /// Address `symbol` resolves to after allocation: the existing
    /// binding if there is one, else the next free variable address.
    pub open spec fn alloc_addr(m: Map<Seq<char>, u16>, next: u16, name: Seq<char>) -> u16 {
        if m.contains_key(name) {
            m[name]
        } else {
            next
        }
    }

    /// The table contents after allocating `name`.
    pub open spec fn alloc_map(m: Map<Seq<char>, u16>, next: u16, name: Seq<char>) -> Map<
        Seq<char>,
        u16,
    > {
        if m.contains_key(name) {
            m
        } else {
            m.insert(name, next)
        }
    }

    /// The next free variable address after allocating `name`.
    pub open spec fn alloc_next(m: Map<Seq<char>, u16>, next: u16, name: Seq<char>) -> int {
        if m.contains_key(name) {
            next as int
        } else {
            next + 1
        }
    }

    /// Returns the address bound to `symbol`, binding it to the next
    /// free variable address (16, 17, …) first if it was unbound.
    pub fn add_variable(&mut self, symbol: String) -> (r: u16)
        requires
            old(self).wf(),
            old(self).next_var() < 32768,
        ensures
            final(self).wf(),
            r == Self::alloc_addr(old(self)@, old(self).next_var(), symbol@),
            final(self)@ == Self::alloc_map(old(self)@, old(self).next_var(), symbol@),
            final(self).next_var() == Self::alloc_next(old(self)@, old(self).next_var(), symbol@),
            r < 32768,
    {
        match self.get_address(symbol.as_str()) {
            Some(a) => a,
            None => {
                let a = self.next_variable;
                // The name is unbound, so the bind cannot be refused.
                match self.add_entry(symbol, a) {
                    Ok(_) => {},
                    Err(_) => {
                        proof {
                            assert(false);
                        }
                    },
                }
                self.next_variable = a + 1;
                a
            },
        }
    }
}

/// Allocating two distinct unbound names hands out consecutive,
/// strictly increasing addresses, and an allocated name keeps its first
/// address when it recurs; in a fresh table the sequence starts at 16.
pub proof fn lemma_allocation_sequence(m: Map<Seq<char>, u16>, next: u16, a: Seq<char>, b: Seq<
    char,
>)
    requires
        next < 32767,
        !m.contains_key(a),
        !m.contains_key(b),
        a != b,
    ensures
        SymbolTable::alloc_addr(m, next, a) == next,
        SymbolTable::alloc_addr(
            SymbolTable::alloc_map(m, next, a),
            (next + 1) as u16,
            b,
        ) == next + 1,
        SymbolTable::alloc_next(m, next, a) == next + 1,
        SymbolTable::alloc_addr(SymbolTable::alloc_map(m, next, a), (next + 1) as u16, a) == next,
{
}

/// Every predefined symbol resolves to its fixed documented address
/// before any binding occurs.
pub proof fn lemma_predefined_resolution()
    ensures
        predefined_symbols()["R0"@] == 0,
        predefined_symbols()["R1"@] == 1,
        predefined_symbols()["R2"@] == 2,
        predefined_symbols()["R3"@] == 3,
        predefined_symbols()["R4"@] == 4,
        predefined_symbols()["R5"@] == 5,
        predefined_symbols()["R6"@] == 6,
        predefined_symbols()["R7"@] == 7,
        predefined_symbols()["R8"@] == 8,
        predefined_symbols()["R9"@] == 9,
        predefined_symbols()["R10"@] == 10,
        predefined_symbols()["R11"@] == 11,
        predefined_symbols()["R12"@] == 12,
        predefined_symbols()["R13"@] == 13,
        predefined_symbols()["R14"@] == 14,
        predefined_symbols()["R15"@] == 15,
        predefined_symbols()["SCREEN"@] == 16384,
        predefined_symbols()["KBD"@] == 24576,
        predefined_symbols()["SP"@] == 0,
        predefined_symbols()["LCL"@] == 1,
        predefined_symbols()["ARG"@] == 2,
        predefined_symbols()["THIS"@] == 3,
        predefined_symbols()["THAT"@] == 4,
{
    lemma_predefined_table();
}

} // verus!
