//! The failure reporter: a drained batch with failures leaves one report
//! artifact listing exactly the failed URLs under a heading that links the
//! submitted reference URL; a clean batch leaves none and retires a stale
//! one. The artifact's presence is itself the signal that the most recent
//! run of the collection had unresolved failures.

use vstd::prelude::*;
use vstd::string::StringExecFns;
use crate::batch::FailedDownload;

verus! {

/// The fixed file name of the report artifact inside the collection's
/// destination directory.
pub fn report_file_name() -> (r: &'static str)
    ensures
        r@ == "failed_downloads.html"@,
{
    "failed_downloads.html"
}

/// The source URLs of the failed jobs, in the order they were recorded.
pub open spec fn spec_failed_urls(failed: Seq<FailedDownload>) -> Seq<Seq<char>> {
    failed.map_values(|f: FailedDownload| f.source_url@)
}

/// One listed failure: the URL, linked and repeated as the link text.
pub open spec fn spec_report_item(url: Seq<char>) -> Seq<char> {
    "<li><a href=\""@ + url + "\">"@ + url + "</a></li>"@
}

/// The listed failures, in order.
pub open spec fn spec_report_items(urls: Seq<Seq<char>>) -> Seq<char>
    decreases urls.len(),
{
    if urls.len() == 0 {
        Seq::empty()
    } else {
        spec_report_items(urls.drop_last()) + spec_report_item(urls.last())
    }
}

/// Everything before the listed failures: the heading linking the reference
/// URL, titled with the collection name.
pub open spec fn spec_report_head(page_url: Seq<char>, title: Seq<char>) -> Seq<char> {
    "<html><body><h1><a href=\""@ + page_url + "\">"@ + title + "</a></h1><ul>"@
}

/// The whole report document.
pub open spec fn spec_report(page_url: Seq<char>, title: Seq<char>, urls: Seq<Seq<char>>) -> Seq<
    char,
> {
    spec_report_head(page_url, title) + spec_report_items(urls) + "</ul></body></html>"@
}

/// Render the report document for a batch's failures.
pub fn render_report(page_url: &str, title: &str, failed: &Vec<FailedDownload>) -> (r: String)
    ensures
        r@ == spec_report(page_url@, title@, spec_failed_urls(failed@)),
{
    let ghost urls = spec_failed_urls(failed@);
    let mut s = String::new();
    s.append("<html><body><h1><a href=\"");
    s.append(page_url);
    s.append("\">");
    s.append(title);
    s.append("</a></h1><ul>");
    proof {
        assert(s@ =~= spec_report_head(page_url@, title@));
        assert(urls.take(0) =~= Seq::<Seq<char>>::empty());
    }
    let mut i: usize = 0;
    while i < failed.len()
        invariant
            i <= failed.len(),
            urls == spec_failed_urls(failed@),
            urls.len() == failed.len(),
            s@ == spec_report_head(page_url@, title@) + spec_report_items(urls.take(i as int)),
        decreases failed.len() - i,
    {
        let f: &FailedDownload = &failed[i];
        s.append("<li><a href=\"");
        s.append(f.source_url.as_str());
        s.append("\">");
        s.append(f.source_url.as_str());
        s.append("</a></li>");
        proof {
            assert(urls.take(i + 1).drop_last() =~= urls.take(i as int));
            assert(urls.take(i + 1).last() == urls[i as int]);
            assert(urls[i as int] == failed@[i as int].source_url@);
            assert(s@ =~= spec_report_head(page_url@, title@) + spec_report_items(
                urls.take(i + 1),
            ));
        }
        i = i + 1;
    }
    s.append("</ul></body></html>");
    proof {
        assert(urls.take(failed.len() as int) =~= urls);
        assert(s@ =~= spec_report(page_url@, title@, urls));
    }
    s
}

/// What the reporter asks the surrounding process to do with the artifact.
pub enum ReportAction {
    Persist(String),
    RemoveStale,
}

/// Decide the report artifact's fate for a drained batch: with at least one
/// failure, persist the rendered document, overwriting any prior one; with
/// none, remove a stale artifact if present, so a clean batch leaves no
/// stale signal behind.
pub fn report_action(page_url: &str, title: &str, failed: &Vec<FailedDownload>) -> (a:
    ReportAction)
    ensures
        failed@.len() > 0 ==> (a matches ReportAction::Persist(content) && content@ == spec_report(
            page_url@,
            title@,
            spec_failed_urls(failed@),
        )),
        failed@.len() == 0 ==> a is RemoveStale,
{
    if failed.len() > 0 {
        ReportAction::Persist(render_report(page_url, title, failed))
    } else {
        ReportAction::RemoveStale
    }
}

/// The completion response body: the collection name and a completion
/// marker. It is returned whatever the jobs' outcomes were; failures are
/// discoverable through the report artifact, not through this response.
pub open spec fn spec_completion_response(title: Seq<char>) -> Seq<char> {
    title + "\n已完成！"@
}

/// Render the completion response for a batch.
pub fn completion_response(title: &str) -> (r: String)
    ensures
        r@ == spec_completion_response(title@),
{
    let mut s = String::from_str(title);
    s.append("\n已完成！");
    s
}

} // verus!
