//! Maintainer strings of the form `NAME (CONTACT)`, and the registry that
//! keeps one maintainer per contact.
use vstd::prelude::*;
use vstd::string::StrSliceExecFns;

use crate::text::{
    contains, is_first_at, lacks, lemma_first_at, occurs, occurs_at, split_once,
};

verus! {

/// `s` reads `n (c)`, where the name `n` is not empty and holds no
/// parenthesis and the contact `c` is not empty and holds no `)`.
pub open spec fn is_maintainer(s: Seq<char>, n: Seq<char>, c: Seq<char>) -> bool {
    &&& n.len() > 0
    &&& lacks(n, '(')
    &&& lacks(n, ')')
    &&& c.len() > 0
    &&& lacks(c, ')')
    &&& s == n + seq![' ', '('] + c + seq![')']
}

/// A one-character pattern occurs exactly when the character does.
pub proof fn lemma_occurs_char(s: Seq<char>, c: char)
    ensures
        occurs(s, seq![c]) <==> !lacks(s, c),
{
    if occurs(s, seq![c]) {
        let i = choose|i: int| occurs_at(s, seq![c], i);
        assert(s.subrange(i, i + 1)[0] == s[i]);
    }
    if !lacks(s, c) {
        let i = choose|i: int| 0 <= i < s.len() && s[i] == c;
        assert(s.subrange(i, i + 1) =~= seq![c]);
        assert(occurs_at(s, seq![c], i));
    }
}

/// A maintainer string has its first `(` right after the name and a space.
proof fn lemma_maintainer_split(s: Seq<char>, n: Seq<char>, c: Seq<char>)
    requires
        is_maintainer(s, n, c),
    ensures
        is_first_at(s, seq!['('], (n.len() + 1) as int),
        s.subrange(0, (n.len() + 1) as int) == n.push(' '),
        s.subrange((n.len() + 2) as int, s.len() as int) == c.push(')'),
{
    let k = (n.len() + 1) as int;
    assert(s.subrange(k, k + 1) =~= seq!['(']);
    assert forall|j: int| 0 <= j < k implies !occurs_at(s, seq!['('], j) by {
        if occurs_at(s, seq!['('], j) {
            assert(s.subrange(j, j + 1)[0] == s[j]);
            if j < n.len() {
                assert(s[j] == n[j]);
            } else {
                assert(s[j] == ' ');
            }
        }
    }
    assert(s.subrange(0, (n.len() + 1) as int) =~= n.push(' '));
    assert(s.subrange((n.len() + 2) as int, s.len() as int) =~= c.push(')'));
}

/// A string has at most one reading as a maintainer.
pub proof fn lemma_maintainer_unique(
    s: Seq<char>,
    n1: Seq<char>,
    c1: Seq<char>,
    n2: Seq<char>,
    c2: Seq<char>,
)
    requires
        is_maintainer(s, n1, c1),
        is_maintainer(s, n2, c2),
    ensures
        n1 == n2,
        c1 == c2,
{
    lemma_maintainer_split(s, n1, c1);
    lemma_maintainer_split(s, n2, c2);
    lemma_first_at(s, seq!['('], (n1.len() + 1) as int);
    lemma_first_at(s, seq!['('], (n2.len() + 1) as int);
    assert(n1 =~= n1.push(' ').drop_last());
    assert(n2 =~= n2.push(' ').drop_last());
    assert(c1 =~= c1.push(')').drop_last());
    assert(c2 =~= c2.push(')').drop_last());
}

/// Splits `NAME (CONTACT)` into name and contact; any other shape gives `None`.
pub fn extract_name_and_contact(input: &str) -> (r: Option<(String, String)>)
    ensures
        match r {
            Some((n, c)) => is_maintainer(input@, n@, c@),
            None => forall|n: Seq<char>, c: Seq<char>| !is_maintainer(input@, n, c),
        },
{
    proof {
        reveal_strlit("(");
        reveal_strlit(")");
        assert("("@ =~= seq!['(']);
        assert(")"@ =~= seq![')']);
    }
    let (head, rest) = match split_once(input, "(") {
        Some(parts) => parts,
        None => {
            proof {
                assert forall|n: Seq<char>, c: Seq<char>| !is_maintainer(input@, n, c) by {
                    if is_maintainer(input@, n, c) {
                        lemma_maintainer_split(input@, n, c);
                    }
                }
            }
            return None;
        },
    };
    let ghost s = input@;
    proof {
        assert forall|n: Seq<char>, c: Seq<char>| is_maintainer(s, n, c) implies n.push(' ')
            == head@ && c.push(')') == rest@ by {
            lemma_maintainer_split(s, n, c);
            lemma_first_at(s, seq!['('], head@.len() as int);
            lemma_first_at(s, seq!['('], (n.len() + 1) as int);
        }
    }
    let hl = head.unicode_len();
    let rl = rest.unicode_len();
    if hl < 2 || rl < 2 || head.get_char(hl - 1) != ' ' || rest.get_char(rl - 1) != ')' {
        proof {
            assert forall|n: Seq<char>, c: Seq<char>| !is_maintainer(s, n, c) by {
                if is_maintainer(s, n, c) {
                    assert(n.push(' ').last() == ' ');
                    assert(c.push(')').last() == ')');
                }
            }
        }
        return None;
    }
    let name = head.substring_char(0, hl - 1);
    let contact = rest.substring_char(0, rl - 1);
    proof {
        lemma_first_at(s, seq!['('], head@.len() as int);
        lemma_occurs_char(name@, ')');
        lemma_occurs_char(contact@, ')');
        lemma_occurs_char(name@, '(');
        assert forall|j: int| 0 <= j < name@.len() implies name@[j] != '(' by {
            if name@[j] == '(' {
                assert(s[j] == '(');
                assert(s.subrange(j, j + 1) =~= seq!['(']);
                assert(occurs_at(s, seq!['('], j));
            }
        }
        assert(head@ =~= name@.push(' '));
        assert(rest@ =~= contact@.push(')'));
    }
    if contains(name, ")") || contains(contact, ")") {
        proof {
            assert forall|n: Seq<char>, c: Seq<char>| !is_maintainer(s, n, c) by {
                if is_maintainer(s, n, c) {
                    assert(n =~= n.push(' ').drop_last());
                    assert(c =~= c.push(')').drop_last());
                    assert(name@ =~= head@.drop_last());
                    assert(contact@ =~= rest@.drop_last());
                }
            }
        }
        return None;
    }
    proof {
        let a = head@.len() as int;
        assert(s.subrange(a, a + 1)[0] == s[a]);
        assert(s =~= head@ + seq!['('] + rest@);
        assert(s =~= name@ + seq![' ', '('] + contact@ + seq![')']);
    }
    Some((name.to_string(), contact.to_string()))
}

} // verus!
