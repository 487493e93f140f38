//! The editor's command line: `w <file>` saves the graph.
use vstd::prelude::*;
use crate::document::{export, exported, Document};
use crate::flow::{copy_texts, texts_view};
use crate::nodes::same_text;
use crate::params::Params;
use crate::text::{split_words, words_of};

verus! {

/// Saves the graph to the file named by the second word.
pub struct SaveCommand {
    pub components: Vec<String>,
}

/// A graph to write to a file.
pub struct SaveRequest {
    pub file_name: String,
    pub document: Document,
}

impl SaveCommand {
    pub fn new(components: &Vec<String>) -> (r: Self)
        ensures
            texts_view(r.components@) == texts_view(components@),
    {
        SaveCommand { components: copy_texts(components) }
    }

    /// The command, held on the heap.
    pub fn new_ref(components: &Vec<String>) -> (r: Box<Self>)
        ensures
            texts_view(r.components@) == texts_view(components@),
    {
        Box::new(SaveCommand::new(components))
    }

    /// Saving changes nothing that could be undone.
    pub fn is_undoable(&self) -> (r: bool)
        ensures
            !r,
    {
        false
    }

    /// The saved form of the session and the file to write it to; nothing
    /// when no file is named.
    pub fn execute(&self, params: &Params) -> (r: Option<SaveRequest>)
        ensures
            r is Some <==> self.components@.len() > 1,
            r matches Some(s) ==> s.file_name@ == self.components@[1]@ && exported(
                *params,
                s.document,
            ),
    {
        if self.components.len() <= 1 {
            return None;
        }
        Some(SaveRequest { file_name: self.components[1].clone(), document: export(params) })
    }
}

/// Interprets a line typed on the command line: `w <file> ...` asks to save
/// the graph to `<file>`; anything else is not a command.
pub fn run(text: &String, params: &Params) -> (r: Option<SaveRequest>)
    ensures
        r is Some <==> words_of(text@).len() > 1 && words_of(text@)[0] == "w"@,
        r matches Some(s) ==> s.file_name@ == words_of(text@)[1] && exported(*params, s.document),
{
    let components = split_words(text.as_str());
    proof {
        assert(texts_view(components@) == words_of(text@));
    }
    if components.len() > 1 && same_text(components[0].as_str(), "w") {
        let command = SaveCommand::new(&components);
        proof {
            assert(texts_view(command.components@)[0] == texts_view(components@)[0]);
            assert(texts_view(command.components@)[1] == texts_view(components@)[1]);
        }
        command.execute(params)
    } else {
        None
    }
}

} // verus!
