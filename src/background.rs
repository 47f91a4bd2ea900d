use vstd::prelude::*;

verus! {

/// Observable progress of one background job: a title, a (current, max)
/// pair and an append-only log.
pub struct BackgroundOperationProgress {
    title: String,
    progress: usize,
    max: usize,
    log: Vec<String>,
}

pub struct ProgressView {
    pub title: Seq<char>,
    pub progress: usize,
    pub max: usize,
    pub log: Seq<String>,
}

impl View for BackgroundOperationProgress {
    type V = ProgressView;

    closed spec fn view(&self) -> ProgressView {
        ProgressView { title: self.title@, progress: self.progress, max: self.max, log: self.log@ }
    }
}

impl BackgroundOperationProgress {
    pub fn new(title: &str, max: usize) -> (r: Self)
        ensures
            r@.title == title@,
            r@.progress == 0,
            r@.max == max,
            r@.log == Seq::<String>::empty(),
    {
        BackgroundOperationProgress {
            title: String::from_str(title),
            progress: 0,
            max,
            log: Vec::new(),
        }
    }

    pub fn get_title(&self) -> (r: &str)
        ensures
            r@ == self@.title,
    {
        self.title.as_str()
    }

    pub fn get_progress(&self) -> (r: (usize, usize))
        ensures
            r == (self@.progress, self@.max),
    {
        (self.progress, self.max)
    }

    /// Overwrites both numbers: the total may only become known during the run.
    pub fn set_progress(&mut self, progress: usize, max: usize)
        ensures
            final(self)@ == (ProgressView { progress, max, ..old(self)@ }),
    {
        self.progress = progress;
        self.max = max;
    }

    /// A copy of the log as it stands.
    pub fn get_log(&self) -> (r: Vec<String>)
        ensures
            r@ == self@.log,
    {
        let r = self.log.clone();
        assert(r@ =~= self.log@);
        r
    }

    /// Appends one entry to the log.
    pub fn log(&mut self, entry: String)
        ensures
            final(self)@ == (ProgressView { log: old(self)@.log.push(entry), ..old(self)@ }),
    {
        self.log.push(entry);
    }

    pub fn has_finished(&self) -> (r: bool)
        ensures
            r == (self@.progress >= self@.max),
    {
        let progress = self.get_progress();
        progress.0 >= progress.1
    }
}

} // verus!
