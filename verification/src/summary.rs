//! Summaries of publishable items: a trait for a one-line summary and an
//! author line, implemented for a news article and for a tweet.

use vstd::prelude::*;
use vstd::string::StrSliceExecFns;
use vstd::string::StringExecFns;

verus! {

/// Something that can present itself in one line and name its author.
pub trait Summary {
    /// The author line the item promises.
    spec fn author_spec(&self) -> Seq<char>;

    /// The one-line summary the item promises.
    spec fn summary_spec(&self) -> Seq<char>;

    /// The author line.
    fn summarize_author(&self) -> (author: String)
        ensures
            author@ == self.author_spec(),
    ;

    /// The one-line summary.
    fn summarize(&self) -> (summary: String)
        ensures
            summary@ == self.summary_spec(),
    ;
}

/// A news article with its headline and provenance.
pub struct NewsArticle {
    pub headline: String,
    pub location: String,
    pub author: String,
    pub content: String,
    pub source: String,
}

impl Summary for NewsArticle {
    open spec fn author_spec(&self) -> Seq<char> {
        "Written by "@ + self.author@
    }

    open spec fn summary_spec(&self) -> Seq<char> {
        self.headline@ + ", ("@ + self.source@ + ")"@
    }

    fn summarize_author(&self) -> (author: String) {
        let mut author = String::from_str("Written by ");
        author.append(self.author.as_str());
        author
    }

    fn summarize(&self) -> (summary: String) {
        let mut summary = self.headline.clone();
        summary.append(", (");
        summary.append(self.source.as_str());
        summary.append(")");
        summary
    }
}

/// A tweet with its author and text.
pub struct Tweet {
    pub username: String,
    pub content: String,
    pub reply: bool,
    pub retweet: bool,
}

impl Summary for Tweet {
    open spec fn author_spec(&self) -> Seq<char> {
        "@"@ + self.username@
    }

    open spec fn summary_spec(&self) -> Seq<char> {
        self.username@ + ": "@ + self.content@
    }

    fn summarize_author(&self) -> (author: String) {
        let mut author = String::from_str("@");
        author.append(self.username.as_str());
        author
    }

    fn summarize(&self) -> (summary: String) {
        let mut summary = self.username.clone();
        summary.append(": ");
        summary.append(self.content.as_str());
        summary
    }
}

} // verus!
