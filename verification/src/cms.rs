//! The content manager: a window listing the titles of all posts.

use vstd::prelude::*;

use crate::models::BlogPost;

verus! {

/// Why the posts could not be loaded.
#[derive(Clone, Copy, Debug, PartialEq, Eq)]
pub enum StateError {
    LoadingError,
}

/// The loaded posts.
pub struct State {
    pub posts: Vec<BlogPost>,
}

/// The content manager: still waiting for posts, or showing them.
pub enum App {
    Loading,
    Loaded(State),
}

/// What the window receives.
pub enum Message {
    Loaded(Result<State, StateError>),
    Dummy,
}

/// The text shown while no posts are loaded.
pub open spec fn loading_line() -> Seq<char> {
    seq!['T', 'e', 's', 't']
}

impl App {
    /// The content manager as it starts, given the result of loading all
    /// posts: showing them, or still loading when the database failed.
    pub fn from_loaded(result: Result<Vec<BlogPost>, StateError>) -> (app: App)
        ensures
            match result {
                Ok(posts) => app matches App::Loaded(state) && state.posts@ == posts@,
                Err(_) => app is Loading,
            },
    {
        match result {
            Ok(posts) => App::Loaded(State { posts }),
            Err(_) => App::Loading,
        }
    }

    /// The window title.
    pub fn title(&self) -> (t: String)
        ensures
            t@ == seq!['D', 'N', 'g', 'u', 'y', 'e', 'n', ' ', 'C', 'M', 'S'],
    {
        proof {
            reveal_strlit("DNguyen CMS");
        }
        "DNguyen CMS".to_owned()
    }

    /// Messages change nothing.
    pub fn update(&mut self, message: Message)
        ensures
            *final(self) == *old(self),
    {
    }

    /// The lines the window shows: the title of each post in order, or
    /// "Test" while loading.
    pub fn view_lines(&self) -> (lines: Vec<String>)
        ensures
            match self {
                App::Loaded(state) => {
                    &&& lines.len() == state.posts.len()
                    &&& forall|i: int|
                        0 <= i < lines.len() ==> #[trigger] lines@[i]@ == state.posts@[i].title@
                },
                App::Loading => lines.len() == 1 && lines@[0]@ == loading_line(),
            },
    {
        match self {
            App::Loaded(state) => {
                let mut lines: Vec<String> = Vec::new();
                let n = state.posts.len();
                for i in 0..n
                    invariant
                        n == state.posts.len(),
                        lines.len() == i,
                        forall|j: int|
                            0 <= j < i ==> #[trigger] lines@[j]@ == state.posts@[j].title@,
                {
                    lines.push(state.posts[i].title.clone());
                }
                lines
            },
            App::Loading => {
                proof {
                    reveal_strlit("Test");
                }
                let mut lines: Vec<String> = Vec::new();
                lines.push("Test".to_owned());
                lines
            },
        }
    }
}

} // verus!
