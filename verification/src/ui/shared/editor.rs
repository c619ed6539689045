//! What opening an issue in the browser or its raw JSON in an editor
//! needs: the address, the file name, the editor to run and the message
//! reported.

use vstd::prelude::*;

verus! {

/// The address of an issue on the Jira site at `namespace`.
pub fn browse_url(namespace: &str, key: &str) -> (r: String)
    ensures
        r@ == namespace@ + "/browse/"@ + key@,
{
    let mut s = namespace.to_owned();
    s.append("/browse/");
    s.append(key);
    s
}

/// The message reported after trying to open `url` in the browser.
pub fn browser_status(url: &str, outcome: Result<(), String>) -> (r: Result<String, String>)
    ensures
        match outcome {
            Ok(()) => r matches Ok(m) && m@ == "Opened "@ + url@,
            Err(e) => r matches Err(m) && m@ == "Failed to open browser: "@ + e@,
        },
{
    match outcome {
        Ok(()) => {
            let mut m = String::from_str("Opened ");
            m.append(url);
            proof {
                reveal_strlit("Opened ");
            }
            Ok(m)
        },
        Err(e) => {
            let mut m = String::from_str("Failed to open browser: ");
            m.append(e.as_str());
            proof {
                reveal_strlit("Failed to open browser: ");
            }
            Err(m)
        },
    }
}

/// The name of the temporary file that holds an issue's raw JSON.
pub fn raw_file_name(key: &str) -> (r: String)
    ensures
        r@ == "jira_raw_"@ + key@ + ".json"@,
{
    let mut s = String::from_str("jira_raw_");
    s.append(key);
    s.append(".json");
    s
}

/// The editor to run: `$VISUAL`, else `$EDITOR`, else `vi`.
pub fn editor_program(visual: Option<String>, editor: Option<String>) -> (r: String)
    ensures
        r@ == match visual {
            Some(v) => v@,
            None => match editor {
                Some(e) => e@,
                None => "vi"@,
            },
        },
{
    match visual {
        Some(v) => v,
        None => match editor {
            Some(e) => e,
            None => String::from_str("vi"),
        },
    }
}

} // verus!
