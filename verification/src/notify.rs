//! A second summary exercise: a trait with one summary method, its two
//! implementors, and small generic helpers.

use vstd::prelude::*;
use vstd::string::StrSliceExecFns;
use vstd::string::StringExecFns;

verus! {

/// Something that can present itself in one line.
pub trait Summary {
    /// The one-line summary the item promises.
    spec fn summary_spec(&self) -> Seq<char>;

    /// The one-line summary.
    fn summarize(&self) -> (summary: String)
        ensures
            summary@ == self.summary_spec(),
    ;
}

/// A news article with its headline and provenance.
#[derive(Debug)]
pub struct NewsArticle {
    pub headline: String,
    pub location: String,
    pub author: String,
    pub content: String,
    pub source: String,
}

impl Summary for NewsArticle {
    open spec fn summary_spec(&self) -> Seq<char> {
        self.headline@ + ", by "@ + self.author@ + "("@ + self.source@ + ")"@
    }

    fn summarize(&self) -> (summary: String) {
        let mut summary = self.headline.clone();
        summary.append(", by ");
        summary.append(self.author.as_str());
        summary.append("(");
        summary.append(self.source.as_str());
        summary.append(")");
        summary
    }
}

/// A tweet with its author and text.
pub struct Tweet {
    pub username: String,
    pub content: String,
    pub reply: bool,
    pub retweet: bool,
}

impl Summary for Tweet {
    open spec fn summary_spec(&self) -> Seq<char> {
        self.username@ + ": "@ + self.content@
    }

    fn summarize(&self) -> (summary: String) {
        let mut summary = self.username.clone();
        summary.append(": ");
        summary.append(self.content.as_str());
        summary
    }
}

/// A function generic over two otherwise unconstrained types.
pub fn another_function_without_where_clauses<T, U>(_t: &T, _u: &U) -> (n: i32)
    ensures
        n == 33,
{
    33
}

/// A fixed summarizable item: one well-known tweet.
pub fn returns_summarizable() -> (tweet: Tweet)
    ensures
        tweet.username@ == "yoda"@,
        tweet.content@ == "To be or not to be, question is."@,
        tweet.reply == true,
        tweet.retweet == false,
{
    Tweet {
        username: String::from_str("yoda"),
        content: String::from_str("To be or not to be, question is."),
        reply: true,
        retweet: false,
    }
}

/// A pair of two values of one type.
pub struct Pair<T> {
    pub x: T,
    pub y: T,
}

impl<T> Pair<T> {
    /// The pair of the two given values.
    pub fn new(x: T, y: T) -> (pair: Self)
        ensures
            pair.x == x,
            pair.y == y,
    {
        Self { x, y }
    }
}

} // verus!
