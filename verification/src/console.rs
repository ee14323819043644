//! Statements typed at the console: a command, its arguments and its options.
//!
//! A line is split at whitespace into words. The first word is the command.
//! Of the others, a word that starts with `-` is an option, `-key` or
//! `-key=value`, and any other word is an argument.

use crate::table::{holds_text, Table};
use crate::text::{chars_of, is_space, is_whitespace};
use vstd::prelude::*;
use vstd::string::{StrSliceExecFns, StringExecFns};

verus! {

/// What a statement says: the command, the arguments in the order in which
/// they stand, and the value given to each option.
pub struct Statement {
    pub command: Seq<char>,
    pub arguments: Seq<Seq<char>>,
    pub options: Map<Seq<char>, Seq<char>>,
}

/// A statement as read from a line.
#[derive(Debug)]
pub struct ConsoleStatement {
    pub command: String,
    pub arguments: Vec<String>,
    pub options: Table<String>,
}

/// The texts of a list of strings.
pub open spec fn texts(list: Seq<String>) -> Seq<Seq<char>> {
    Seq::new(list.len(), |i: int| list[i]@)
}

/// The texts that a table of strings holds.
pub open spec fn text_values(table: Map<Seq<char>, String>) -> Map<Seq<char>, Seq<char>> {
    Map::new(|key: Seq<char>| table.contains_key(key), |key: Seq<char>| table[key]@)
}

impl View for ConsoleStatement {
    type V = Statement;

    open spec fn view(&self) -> Statement {
        Statement {
            command: self.command@,
            arguments: texts(self.arguments@),
            options: text_values(self.options@),
        }
    }
}

/// Where the word that starts at `from` ends: the first position at or
/// after `from` that holds whitespace, or the end of the line.
pub open spec fn word_end(s: Seq<char>, from: int) -> int
    decreases s.len() - from,
{
    if 0 <= from < s.len() && !is_space(s[from]) {
        word_end(s, from + 1)
    } else {
        from
    }
}

/// A word holds no whitespace, is not continued where it ends, and is not
/// empty where it starts on a character that is no whitespace.
pub proof fn lemma_word_end(s: Seq<char>, from: int)
    requires
        0 <= from <= s.len(),
    ensures
        from <= word_end(s, from) <= s.len(),
        forall|k: int| from <= k < word_end(s, from) ==> !is_space(#[trigger] s[k]),
        word_end(s, from) < s.len() ==> is_space(s[word_end(s, from)]),
        from < s.len() && !is_space(s[from]) ==> from < word_end(s, from),
    decreases s.len() - from,
{
    if from < s.len() && !is_space(s[from]) {
        lemma_word_end(s, from + 1);
    }
}

/// The words of `s` from `from` on: the longest runs of characters that are
/// no whitespace, in order.
pub open spec fn words_from(s: Seq<char>, from: int) -> Seq<Seq<char>>
    decreases s.len() - from,
{
    if from < 0 || from >= s.len() {
        Seq::empty()
    } else if is_space(s[from]) {
        words_from(s, from + 1)
    } else {
        proof {
            lemma_word_end(s, from);
        }
        seq![s.subrange(from, word_end(s, from))] + words_from(s, word_end(s, from))
    }
}

/// The words of a line.
pub open spec fn words(s: Seq<char>) -> Seq<Seq<char>> {
    words_from(s, 0)
}

/// A word: not empty, and without whitespace.
pub open spec fn is_word(w: Seq<char>) -> bool {
    &&& w.len() > 0
    &&& forall|k: int| 0 <= k < w.len() ==> !is_space(#[trigger] w[k])
}

/// Each of the words of a line is a word.
pub proof fn lemma_words_are_words(s: Seq<char>, from: int)
    requires
        0 <= from,
    ensures
        forall|i: int| 0 <= i < words_from(s, from).len() ==> is_word(#[trigger] words_from(s, from)[i]),
    decreases s.len() - from,
{
    if from >= s.len() {
        assert(words_from(s, from).len() == 0);
    } else {
        if is_space(s[from]) {
            lemma_words_are_words(s, from + 1);
            assert(words_from(s, from) == words_from(s, from + 1));
        } else {
            lemma_word_end(s, from);
            let end = word_end(s, from);
            lemma_words_are_words(s, end);
            let first = s.subrange(from, end);
            let rest = words_from(s, end);
            assert(words_from(s, from) == seq![first] + rest);
            assert(is_word(first)) by {
                assert forall|k: int| 0 <= k < first.len() implies !is_space(#[trigger] first[k]) by {
                    assert(first[k] == s[from + k]);
                }
            }
            assert forall|i: int| 0 <= i < words_from(s, from).len() implies is_word(
                #[trigger] words_from(s, from)[i],
            ) by {
                if i > 0 {
                    assert(words_from(s, from)[i] == rest[i - 1]);
                    assert(is_word(rest[i - 1]));
                } else {
                    assert(words_from(s, from)[i] == first);
                }
            }
        }
    }
}

/// An option is a word that starts with the marker `-`.
pub open spec fn is_option(word: Seq<char>) -> bool {
    word.len() > 0 && word[0] == '-'
}

/// Where the first `=` of `s` at or after `from` stands, or the length of
/// `s` where there is none.
pub open spec fn equals_at(s: Seq<char>, from: int) -> int
    decreases s.len() - from,
{
    if 0 <= from < s.len() && s[from] != '=' {
        equals_at(s, from + 1)
    } else {
        from
    }
}

/// The key of an option: what stands between the marker and the first `=`,
/// or after the marker where there is no `=`.
pub open spec fn option_key(word: Seq<char>) -> Seq<char> {
    word.subrange(1, equals_at(word, 1))
}

/// The value of an option: what stands after the first `=`, or nothing
/// where there is no `=`.
pub open spec fn option_value(word: Seq<char>) -> Seq<char> {
    if equals_at(word, 1) < word.len() {
        word.subrange(equals_at(word, 1) + 1, word.len() as int)
    } else {
        Seq::empty()
    }
}

/// The arguments among `rest`, the words after the command: those that are
/// no options, in order.
pub open spec fn arguments_of(rest: Seq<Seq<char>>) -> Seq<Seq<char>>
    decreases rest.len(),
{
    if rest.len() == 0 {
        Seq::empty()
    } else if is_option(rest.last()) {
        arguments_of(rest.drop_last())
    } else {
        arguments_of(rest.drop_last()).push(rest.last())
    }
}

/// The options among `rest`, the words after the command: each key with the
/// value of the last option that names it.
pub open spec fn options_of(rest: Seq<Seq<char>>) -> Map<Seq<char>, Seq<char>>
    decreases rest.len(),
{
    if rest.len() == 0 {
        Map::empty()
    } else if is_option(rest.last()) {
        options_of(rest.drop_last()).insert(option_key(rest.last()), option_value(rest.last()))
    } else {
        options_of(rest.drop_last())
    }
}

/// What a line says. A line without words says nothing: its command is empty.
pub open spec fn statement_of(line: Seq<char>) -> Statement {
    let all = words(line);
    if all.len() == 0 {
        Statement { command: Seq::empty(), arguments: Seq::empty(), options: Map::empty() }
    } else {
        Statement {
            command: all[0],
            arguments: arguments_of(all.skip(1)),
            options: options_of(all.skip(1)),
        }
    }
}

/// Where the word of `s` that starts at `from` ends.
fn scan_word(s: &Vec<char>, from: usize) -> (end: usize)
    requires
        from <= s.len(),
    ensures
        end == word_end(s@, from as int),
        from <= end <= s.len(),
{
    let mut i: usize = from;
    while i < s.len() && !is_whitespace(s[i])
        invariant
            from <= i <= s.len(),
            word_end(s@, from as int) == word_end(s@, i as int),
        decreases s.len() - i,
    {
        i += 1;
    }
    i
}

/// Splits a line into its words.
pub fn split_words(line: &str) -> (r: Vec<String>)
    ensures
        texts(r@) == words(line@),
{
    let s = chars_of(line);
    let mut out: Vec<String> = Vec::new();
    let mut i: usize = 0;
    while i < s.len()
        invariant
            i <= s.len(),
            s@ == line@,
            words(line@) == texts(out@) + words_from(s@, i as int),
        decreases s.len() - i,
    {
        if is_whitespace(s[i]) {
            i += 1;
        } else {
            let end = scan_word(&s, i);
            proof {
                lemma_word_end(s@, i as int);
            }
            let word = String::from_str(line.substring_char(i, end));
            let ghost before = out@;
            out.push(word);
            proof {
                assert(texts(out@) == texts(before) + seq![s@.subrange(i as int, end as int)]);
            }
            i = end;
        }
    }
    proof {
        assert(texts(out@) + Seq::<Seq<char>>::empty() == texts(out@));
    }
    out
}

/// Where the first `=` of `word` at or after `from` stands.
fn scan_equals(word: &Vec<char>, from: usize) -> (end: usize)
    requires
        from <= word.len(),
    ensures
        end == equals_at(word@, from as int),
        from <= end <= word.len(),
{
    let mut i: usize = from;
    while i < word.len() && word[i] != '='
        invariant
            from <= i <= word.len(),
            equals_at(word@, from as int) == equals_at(word@, i as int),
        decreases word.len() - i,
    {
        i += 1;
    }
    i
}

/// The key and the value of `word`, where it is an option.
fn read_option(word: &String) -> (r: Option<(String, String)>)
    ensures
        match r {
            Some(pair) => is_option(word@) && pair.0@ == option_key(word@) && pair.1@
                == option_value(word@),
            None => !is_option(word@),
        },
{
    let w = chars_of(word.as_str());
    if w.len() == 0 || w[0] != '-' {
        return None;
    }
    let end = scan_equals(&w, 1);
    let key = String::from_str(word.as_str().substring_char(1, end));
    let value = if end < w.len() {
        String::from_str(word.as_str().substring_char(end + 1, w.len()))
    } else {
        String::new()
    };
    Some((key, value))
}

/// Reads a statement from a line.
fn parse_con_statement(statement: &str) -> (stmt: ConsoleStatement)
    ensures
        stmt@ == statement_of(statement@),
{
    let all = split_words(statement);
    let mut stmt = ConsoleStatement::new();
    if all.len() == 0 {
        return stmt;
    }
    stmt.command = all[0].clone();
    let ghost rest = texts(all@).skip(1);
    let mut i: usize = 1;
    proof {
        assert(rest.take(0) == Seq::<Seq<char>>::empty());
    }
    while i < all.len()
        invariant
            1 <= i <= all.len(),
            rest == texts(all@).skip(1),
            stmt.command@ == all@[0]@,
            texts(stmt.arguments@) == arguments_of(rest.take(i - 1)),
            text_values(stmt.options@) == options_of(rest.take(i - 1)),
        decreases all.len() - i,
    {
        proof {
            assert(rest.take(i as int).drop_last() == rest.take(i - 1));
            assert(rest.take(i as int).last() == all@[i as int]@);
        }
        match read_option(&all[i]) {
            Some((key, value)) => {
                let ghost before = stmt.options@;
                stmt.options.insert(key, value);
                proof {
                    assert(text_values(stmt.options@) == text_values(before).insert(
                        key@,
                        value@,
                    ));
                }
            },
            None => {
                let ghost before = stmt.arguments@;
                let word = all[i].clone();
                stmt.arguments.push(word);
                proof {
                    assert(texts(stmt.arguments@) == texts(before).push(all@[i as int]@));
                }
            },
        }
        i += 1;
    }
    proof {
        assert(rest.take(all.len() - 1) == rest);
    }
    stmt
}

impl Default for ConsoleStatement {
    /// A statement that holds the placeholder command `None.` and nothing else.
    fn default() -> (r: Self)
        ensures
            r@.command == "None."@,
            r@.arguments == Seq::<Seq<char>>::empty(),
            r@.options == Map::<Seq<char>, Seq<char>>::empty(),
    {
        let r = ConsoleStatement {
            command: String::from_str("None."),
            arguments: Vec::new(),
            options: Table::new(),
        };
        proof {
            assert(texts(r.arguments@) == Seq::<Seq<char>>::empty());
            assert(text_values(r.options@) == Map::<Seq<char>, Seq<char>>::empty());
        }
        r
    }
}

impl ConsoleStatement {
    /// A statement that says nothing.
    pub fn new() -> (r: Self)
        ensures
            r@ == (Statement {
                command: Seq::empty(),
                arguments: Seq::empty(),
                options: Map::empty(),
            }),
    {
        let r = ConsoleStatement {
            command: String::new(),
            arguments: Vec::new(),
            options: Table::new(),
        };
        proof {
            assert(texts(r.arguments@) == Seq::<Seq<char>>::empty());
            assert(text_values(r.options@) == Map::<Seq<char>, Seq<char>>::empty());
        }
        r
    }

    /// Reads a statement from a line. Every line is read as one: the first
    /// word is the command, as it stands; each later word that starts with
    /// `-` gives an option its value, the last such word for a key
    /// counting; every other word is an argument.
    pub fn parse(string: &str) -> (r: Self)
        ensures
            r@ == statement_of(string@),
    {
        parse_con_statement(string)
    }

    /// Whether the option `flag` was given.
    pub fn has_flag(&self, flag: &str) -> (r: bool)
        ensures
            r == self@.options.contains_key(flag@),
    {
        self.options.contains_key(flag)
    }

    /// The value that the option `opt` was given.
    pub fn get_option(&self, opt: &str) -> (r: Option<&String>)
        ensures
            match r {
                Some(value) => self@.options.contains_key(opt@) && value@ == self@.options[opt@],
                None => !self@.options.contains_key(opt@),
            },
    {
        self.options.get(opt)
    }

    /// Whether every option given is one of `acceptable_flags`.
    pub fn flags_valid(&self, acceptable_flags: &Vec<String>) -> (r: bool)
        ensures
            r == forall|key: Seq<char>|
                self@.options.contains_key(key) ==> holds_text(acceptable_flags@, key),
    {
        self.options.keys_within(acceptable_flags)
    }
}

} // verus!
