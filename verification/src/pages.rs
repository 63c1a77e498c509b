use vstd::prelude::*;

verus! {

/// The markup of the index page, served at the root route.
pub open spec fn index_page_text() -> Seq<char> {
    "<h1>Guess the word</h1><p>Connect to /ws and send five-letter guesses.</p>"@
}

/// The markup of the page answering any unknown route.
pub open spec fn not_found_page_text() -> Seq<char> {
    "<h1>Page not found</h1>"@
}

/// The index page offered to a browser before it opens a game channel.
pub struct IndexTemplate;

impl IndexTemplate {
    /// Renders the index page markup.
    pub fn render(&self) -> (r: String)
        ensures
            r@ == index_page_text(),
    {
        String::from_str("<h1>Guess the word</h1><p>Connect to /ws and send five-letter guesses.</p>")
    }
}

/// The page answering any route the server does not know.
pub struct NotFoundTemplate;

impl NotFoundTemplate {
    /// Renders the not-found page markup.
    pub fn render(&self) -> (r: String)
        ensures
            r@ == not_found_page_text(),
    {
        String::from_str("<h1>Page not found</h1>")
    }
}

} // verus!
