//! The closed set of typed actions the engine consumes, and the parser
//! that turns the words of a command line into one of them.
use vstd::prelude::*;
use vstd::string::StringExecFns;
use crate::text::str_eq;

verus! {

/// A typed player action. The surrounding layer tokenizes raw text into
/// words and renders the outcome back into text.
#[derive(Debug, Clone)]
pub enum Command {
    Go(Option<String>),
    Look,
    Take(String),
    Drop(String),
    Inventory,
    Search,
    Status,
    Attack(String),
    Talk,
    Equip(Vec<String>),
    Unequip(Vec<String>),
    Salir,
    Help,
}

/// The decision table of the parser: which command the given words
/// produce, first word deciding, anything unrecognized meaning a look.
pub open spec fn spec_parse_command(words: Seq<String>, r: Command) -> bool {
    if words.len() == 0 {
        r is Look
    } else {
        let w = words[0]@;
        if w == "1"@ || w == "2"@ || w == "3"@ || w == "4"@ {
            r matches Command::Attack(t) && t == words[0]
        } else if w == "ir"@ {
            r matches Command::Go(t) && (words.len() >= 2 ==> t == Some(words[1])) && (words.len()
                == 1 ==> t is None)
        } else if w == "mirar"@ {
            r is Look
        } else if w == "coger"@ {
            r matches Command::Take(t) && (words.len() >= 2 ==> t == words[1]) && (words.len() == 1
                ==> t@ == Seq::<char>::empty())
        } else if w == "soltar"@ {
            r matches Command::Drop(t) && (words.len() >= 2 ==> t == words[1]) && (words.len() == 1
                ==> t@ == Seq::<char>::empty())
        } else if w == "inventario"@ {
            r is Inventory
        } else if w == "buscar"@ {
            r is Search
        } else if w == "estado"@ {
            r is Status
        } else if w == "atacar"@ {
            r matches Command::Attack(t) && (words.len() >= 2 ==> t == words[1]) && (words.len()
                == 1 ==> t@ == Seq::<char>::empty())
        } else if w == "hablar"@ {
            r is Talk
        } else if w == "equipar"@ {
            r matches Command::Equip(v) && v@ == words.skip(1)
        } else if w == "desequipar"@ {
            r matches Command::Unequip(v) && v@ == words.skip(1)
        } else if w == "salir"@ {
            r is Salir
        } else if w == "ayuda"@ {
            r is Help
        } else {
            r is Look
        }
    }
}

/// Turns the words of one command line into a typed action; the first
/// word decides, and an unrecognized line is read as a look around.
pub fn parse_command(words: &Vec<String>) -> (r: Command)
    ensures
        spec_parse_command(words@, r),
{
    if words.len() == 0 {
        return Command::Look;
    }
    let w = words[0].as_str();
    if str_eq(w, "1") || str_eq(w, "2") || str_eq(w, "3") || str_eq(w, "4") {
        Command::Attack(words[0].clone())
    } else if str_eq(w, "ir") {
        if words.len() >= 2 {
            Command::Go(Some(words[1].clone()))
        } else {
            Command::Go(None)
        }
    } else if str_eq(w, "mirar") {
        Command::Look
    } else if str_eq(w, "coger") {
        if words.len() >= 2 {
            Command::Take(words[1].clone())
        } else {
            Command::Take(String::new())
        }
    } else if str_eq(w, "soltar") {
        if words.len() >= 2 {
            Command::Drop(words[1].clone())
        } else {
            Command::Drop(String::new())
        }
    } else if str_eq(w, "inventario") {
        Command::Inventory
    } else if str_eq(w, "buscar") {
        Command::Search
    } else if str_eq(w, "estado") {
        Command::Status
    } else if str_eq(w, "atacar") {
        if words.len() >= 2 {
            Command::Attack(words[1].clone())
        } else {
            Command::Attack(String::new())
        }
    } else if str_eq(w, "hablar") {
        Command::Talk
    } else if str_eq(w, "equipar") {
        Command::Equip(tail_words(words))
    } else if str_eq(w, "desequipar") {
        Command::Unequip(tail_words(words))
    } else if str_eq(w, "salir") {
        Command::Salir
    } else if str_eq(w, "ayuda") {
        Command::Help
    } else {
        Command::Look
    }
}

/// The words after the first, in order.
fn tail_words(words: &Vec<String>) -> (r: Vec<String>)
    requires
        words@.len() >= 1,
    ensures
        r@ == words@.skip(1),
{
    let mut out: Vec<String> = Vec::new();
    let n = words.len();
    let mut i: usize = 1;
    while i < n
        invariant
            n == words@.len(),
            1 <= i <= n,
            out@ == words@.subrange(1, i as int),
        decreases n - i,
    {
        proof {
            assert(words@.subrange(1, i + 1 as int) =~= words@.subrange(1, i as int).push(
                words@[i as int],
            ));
        }
        out.push(words[i].clone());
        i += 1;
    }
    proof {
        assert(words@.subrange(1, n as int) =~= words@.skip(1));
    }
    out
}

} // verus!
