//! One line of operator input: a command and its arguments.

use crate::errors::CommandLineError;
use crate::text::{chars_of, fields, lemma_texts_push, split_fields, texts, Separators};
use vstd::prelude::*;

verus! {

/// The mathematical content of a [`CommandLine`].
pub struct CommandLineView {
    pub command: Seq<char>,
    pub args: Seq<Seq<char>>,
}

/// A command and its arguments.
#[derive(Debug, Clone)]
pub struct CommandLine {
    command: String,
    args: Vec<String>,
}

impl View for CommandLine {
    type V = CommandLineView;

    closed spec fn view(&self) -> CommandLineView {
        CommandLineView { command: self.command@, args: texts(self.args@) }
    }
}

impl CommandLine {
    /// The command line with the given command and arguments.
    pub fn new(command: String, args: Vec<String>) -> (r: Self)
        ensures
            r@ == (CommandLineView { command: command@, args: texts(args@) }),
    {
        CommandLine { command, args }
    }

    /// The command line whose words are `line`: the first is the command,
    /// the others are its arguments. `None` where there is no word.
    pub fn new_from_list(line: Vec<String>) -> (r: Option<Self>)
        ensures
            line@.len() == 0 ==> r is None,
            line@.len() > 0 ==> (r matches Some(c) && c@ == (CommandLineView {
                command: line@[0]@,
                args: texts(line@).drop_first(),
            })),
    {
        if line.len() == 0 {
            return None;
        }
        let command = line[0].clone();
        let mut args: Vec<String> = Vec::new();
        let mut i: usize = 1;
        proof {
            assert(texts(args@) =~= texts(line@).subrange(1, 1));
        }
        while i < line.len()
            invariant
                1 <= i <= line@.len(),
                texts(args@) == texts(line@).subrange(1, i as int),
            decreases line@.len() - i,
        {
            let word = line[i].clone();
            proof {
                lemma_texts_push(args@, word);
                assert(texts(line@).subrange(1, i as int).push(word@) =~= texts(line@).subrange(
                    1,
                    i as int + 1,
                ));
            }
            args.push(word);
            i += 1;
        }
        proof {
            assert(texts(line@).subrange(1, line@.len() as int) =~= texts(line@).drop_first());
        }
        Some(CommandLine::new(command, args))
    }

    /// Reads a line of input: its words are the fields between whitespace.
    /// A line without a word is an empty command.
    pub fn parse(line: &str) -> (r: Result<CommandLine, CommandLineError>)
        ensures
            ({
                let words = fields(line@, Separators::Whitespace);
                if words.len() == 0 {
                    r matches Err(CommandLineError::EmptyCommand)
                } else {
                    r matches Ok(c) && c@ == (CommandLineView {
                        command: words[0],
                        args: words.drop_first(),
                    })
                }
            }),
    {
        let list = split_fields(&chars_of(line), Separators::Whitespace);
        match CommandLine::new_from_list(list) {
            Some(c) => Ok(c),
            None => Err(CommandLineError::EmptyCommand),
        }
    }

    /// The command.
    pub fn get_command(&self) -> (r: &String)
        ensures
            r@ == self@.command,
    {
        &self.command
    }

    /// The arguments, in their order.
    pub fn get_args(&self) -> (r: &Vec<String>)
        ensures
            texts(r@) == self@.args,
    {
        &self.args
    }
}

} // verus!
