//! Items of the inbound feed, as the pipeline sees them.

use vstd::prelude::*;

verus! {

/// The mention entities attached to a feed post.
pub struct Entities {
    pub user_mentions: Vec<u64>,
}

/// The long form of a post whose text did not fit the short field.
pub struct ExtendedTweet {
    pub full_text: String,
    pub entities: Option<Entities>,
}

/// The fields of a post as the feed delivers them, before the long form
/// (if any) has been folded in.
pub struct TweetRecord {
    pub entities: Option<Entities>,
    pub id: u64,
    pub text: String,
    pub extended_tweet: Option<ExtendedTweet>,
    /// Whether the post carries a `retweeted_status`.
    pub retweeted: bool,
}

/// One decoded item of the feed.
pub enum ExternalEvent {
    Recognized { id: u64, text: String, mentions: Vec<u64>, is_retweet: bool },
    Unrecognized,
}

/// The mention ids carried by optional entities (none when absent).
pub open spec fn mentions_of(e: Option<Entities>) -> Seq<u64> {
    match e {
        Some(ent) => ent.user_mentions@,
        None => Seq::empty(),
    }
}

fn mention_ids(e: Option<Entities>) -> (r: Vec<u64>)
    ensures
        r@ == mentions_of(e),
{
    match e {
        Some(ent) => ent.user_mentions,
        None => Vec::new(),
    }
}

impl ExternalEvent {
    /// Folds a raw post into a recognized event: the long form's text and
    /// mentions replace the short ones when it is present.
    pub fn recognize(rec: TweetRecord) -> (r: ExternalEvent)
        ensures
            r is Recognized,
            r->Recognized_id == rec.id,
            r->Recognized_is_retweet == rec.retweeted,
            match rec.extended_tweet {
                Some(ext) => r->Recognized_text@ == ext.full_text@
                    && r->Recognized_mentions@ == mentions_of(ext.entities),
                None => r->Recognized_text@ == rec.text@
                    && r->Recognized_mentions@ == mentions_of(rec.entities),
            },
    {
        let TweetRecord { entities, id, text, extended_tweet, retweeted } = rec;
        match extended_tweet {
            Some(ext) => {
                let mentions = mention_ids(ext.entities);
                ExternalEvent::Recognized { id, text: ext.full_text, mentions, is_retweet: retweeted }
            },
            None => {
                let mentions = mention_ids(entities);
                ExternalEvent::Recognized { id, text, mentions, is_retweet: retweeted }
            },
        }
    }

    /// Whether the item was decoded into a post.
    pub fn is_recognized(&self) -> (r: bool)
        ensures
            r == (self is Recognized),
    {
        match self {
            ExternalEvent::Recognized { .. } => true,
            ExternalEvent::Unrecognized => false,
        }
    }
}

} // verus!
