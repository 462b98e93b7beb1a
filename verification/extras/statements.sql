-- The statements of the authority. `__S__` stands for the schema.

-- name: active_policies
SELECT DISTINCT ON (tenant_scope)
tenant_scope,policy_id,policy_revision,policy_digest,canonical_json FROM __S__.quota_policy_versions
ORDER BY tenant_scope,policy_revision DESC;

-- name: add_active_policy
INSERT INTO
__S__.quota_policy_versions(tenant_scope,policy_id,policy_revision,policy_digest,canonical_json,created_at)
VALUES($1,$2,$3,$4,$5,$6);

-- name: add_allocation
INSERT INTO
__S__.quota_allocations(tenant_scope,binding_digest,scope_kind,scope_id,dimension,task_id,units,state)
VALUES($1,$2,$3,$4,$5,$6,$7,'active');

-- name: add_backup_lease
INSERT INTO
__S__.artifact_backup_leases(tenant_scope,lease_id,object_id,lease_owner,lease_epoch,lease_token,state,lease_until,created_at)
VALUES($1,$2,$3,$4,1,$5,'active',__S__.db_millis()+$6,__S__.db_millis()) RETURNING lease_until;

-- name: add_callback_policy
INSERT INTO __S__.callback_policy_snapshots VALUES($1,$2,$3,$4,$5,$6,262144,$7,$8,__S__.db_millis());

-- name: add_chunk
INSERT INTO
__S__.artifact_chunks(tenant_scope,artifact_id,ordinal,byte_offset,plaintext_length,content_digest)
VALUES($1,$2,$3,$4,$5,$6) ON CONFLICT DO NOTHING;

-- name: add_config
INSERT INTO
__S__.callback_configs(tenant_scope,task_id,config_id,owner_account_id,principal_scope,enrollment_id,enrollment_generation,canonical_url,url_digest,state,causative_message_id,created_at,updated_at)
VALUES($1,$2,$3,$4,$5,$6,$7,$8,$9,'active',$10,$11,$11) RETURNING
config_id,enrollment_id,enrollment_generation,canonical_url,url_digest,state,created_at;

-- name: add_decision
INSERT INTO
__S__.authorization_decisions(decision_id,tenant_scope,actor_account_id,policy_id,policy_revision,policy_digest,operation,effect,reason,resource_kind,resource_digest,task_id,decided_at)
VALUES($1,$2,$3,$4,$5,$6,$7,$8,$9,$10,$11,$12,$13);

-- name: add_denial
INSERT INTO
__S__.quota_denial_audits(tenant_scope,decision_key,content_digest,policy_digest,bucket_digest,reason_digest,retry_after_seconds,denied_at)
VALUES($1,$2,$3,$4,$5,$6,$7,$8) ON CONFLICT(tenant_scope,decision_key) DO NOTHING;

-- name: add_dispatch
INSERT INTO
__S__.outbox(dispatch_id,tenant_scope,task_id,message_id,causative_revision,payload_json,payload_digest,state,max_attempts,available_at,created_at,updated_at,dispatch_identity_version,quota_binding_digest,quota_reservation_id,quota_reservation_version,reserved_output_bytes,reserved_event_count)
VALUES($1,$2,$3,$4,$5,$6,$7,'pending',$8,$9,$9,$9,2,$10,$11,$12,$13,$14);

-- name: add_effect
INSERT INTO __S__.loopback_effects VALUES($1,$2,'accepted',$3);

-- name: add_enrollment
INSERT INTO __S__.callback_enrollments VALUES($1,$2,$3,$4,$2,$5,$6,$7,$8,$9,$10,$11);

-- name: add_event
INSERT INTO
__S__.task_events(tenant_scope,task_id,event_seq,task_revision,event_kind,from_state,to_state,event_json,created_at)
SELECT $1,$2,COALESCE(max(event_seq),0)+1,$3,$4,$5,$6,$7,$8 FROM __S__.task_events WHERE
tenant_scope=$1 AND task_id=$2;

-- name: add_execution
INSERT INTO
__S__.quota_execution_reservations(tenant_scope,reservation_id,reservation_version,binding_digest,policy_id,policy_revision,policy_digest,account_id,principal_scope,operation,task_id,message_id,dispatch_id,reserved_output_bytes,reserved_event_count,state,created_at)
VALUES($1,$2,1,$3,$4,$5,$6,$7,$8,$9,$10,$11,$12,$13,$14,'reserved',$15);

-- name: add_frame
INSERT INTO
__S__.stream_frames(tenant_scope,message_id,frame_seq,frame_version,frame_kind,frame_json,frame_digest,created_at)
VALUES($1,$2,$3,1,$4,$5,$6,$7);

-- name: add_hold
INSERT INTO __S__.artifact_retention_holds VALUES($1,$2,$3,$4,$5,'active',__S__.db_millis(),$6,NULL);

-- name: add_identity
INSERT INTO __S__.store_identity VALUES(1,$1,__S__.db_millis());

-- name: add_inbox
INSERT INTO
__S__.receiver_inbox(tenant_scope,dispatch_id,payload_digest,payload_json,task_id,context_id,state,lease_epoch,lease_owner,lease_token,lease_until,accepted_at,updated_at,sender_attempt_no,sender_lease_token,quota_binding_digest,quota_reservation_id,quota_reservation_version,reserved_output_bytes,reserved_event_count)
VALUES($1,$2,$3,$4,$5,$6,'processing',1,$7,$8,$9,$10,$10,$11,$12,$13,$14,$15,$16,$17);

-- name: add_intent
INSERT INTO
__S__.quota_intents(tenant_scope,binding_digest,account_id,principal_scope,operation,semantic_id,policy_id,policy_revision,policy_digest,task_id,created_at)
VALUES($1,$2,$3,$4,$5,$6,$7,$8,$9,$10,$11);

-- name: add_key_generation
INSERT INTO
__S__.artifact_key_generations(tenant_scope,encryption_domain,key_generation,state,created_at)
VALUES($1,$2,$3,'active',$4) ON CONFLICT DO NOTHING;

-- name: add_manifest
INSERT INTO
__S__.artifact_manifests(tenant_scope,artifact_id,manifest_digest,object_id,schema_version,canonical_json,owner_account_id,task_id,context_id,message_id,dispatch_id,media_type,plaintext_length,classification,encryption_domain,policy_id,policy_revision,policy_digest,created_at,retain_until)
VALUES($1,$2,$3,$4,1,$5,$6,$7,$8,$9,$10,$11,$12,$13,$14,$15,$16,$17,$18,$19) ON CONFLICT DO NOTHING;

-- name: add_metadata
INSERT INTO __S__.store_metadata VALUES(1,6,$1,$2,$3,$4);

-- name: add_migration
INSERT INTO __S__.schema_migrations VALUES($1,$2,$3,$4,__S__.db_millis());

-- name: add_object
INSERT INTO
__S__.content_objects(tenant_scope,owner_account_id,object_id,content_digest,classification,encryption_domain,key_generation,plaintext_length,ciphertext_length,ciphertext_digest,backend_locator,nonce,state,reference_count,retain_until,created_at)
VALUES($1,$2,$3,$4,$5,$6,$7,$8,$9,$10,$11,$12,'staged',0,$13,$14) ON CONFLICT DO NOTHING;

-- name: add_orphan_audit
INSERT INTO __S__.artifact_orphan_audits(locator_digest,refunded_bytes,deleted_at)
VALUES($1,$2,__S__.db_millis()) ON CONFLICT DO NOTHING;

-- name: add_override
INSERT INTO
__S__.quota_override_audits(tenant_scope,override_id,actor_digest,reason_digest,scope_kind,scope_id_digest,operation,dimension,old_limit,new_limit,policy_revision,policy_digest,effective_at,expires_at,created_at)
VALUES($1,$2,$3,$4,$5,$6,$7,$8,$9,$10,$11,$12,$13,$14,$15) ON CONFLICT(tenant_scope,override_id) DO
NOTHING;

-- name: add_page_token
INSERT INTO
__S__.list_page_tokens(tenant_scope,token_hash,snapshot_id,next_position,scope_digest,query_digest,token_version,key_generation,issued_at,expires_at)
VALUES($1,$2,$3,$4,$5,$6,1,1,$7,$8);

-- name: add_parent
INSERT INTO
__S__.provenance_edges(tenant_scope,child_artifact_id,ordinal,parent_artifact_id,relation)
VALUES($1,$2,$3,$4,$5) ON CONFLICT DO NOTHING;

-- name: add_policy_version
INSERT INTO
__S__.quota_policy_versions(tenant_scope,policy_id,policy_revision,policy_digest,canonical_json,created_at)
VALUES($1,$2,$3,$4,$5,$6) ON CONFLICT(tenant_scope,policy_id,policy_revision) DO NOTHING;

-- name: add_quota_lease
INSERT INTO
__S__.quota_leases(tenant_scope,lease_id,lease_token,lease_epoch,binding_digest,policy_digest,account_id,principal_scope,operation,lease_kind,resource_digest,lease_until,state,created_at,updated_at)
VALUES($1,$2,$3,1,$4,$5,$6,$7,$8,$9,$10,$11,'active',$12,$12);

-- name: add_read_lease
INSERT INTO __S__.artifact_read_leases VALUES($1,$2,$3,1,$4,$5,'active',$6,$7);

-- name: add_receipt
INSERT INTO
__S__.quota_receipts(tenant_scope,binding_digest,scope_kind,scope_id,dimension,algorithm,window_start,units,capacity,created_at)
VALUES($1,$2,$3,$4,$5,$6,$7,$8,$9,$10);

-- name: add_receiver_frame
INSERT INTO __S__.receiver_frames VALUES($1,$2,$3,1,'mesh_event',$4,$5,$6);

-- name: add_reconciliation
INSERT INTO
__S__.quota_policy_reconciliation_audits(tenant_scope,reconciliation_id,old_policy_revision,old_policy_digest,new_policy_revision,new_policy_digest,actor_digest,reason_digest,action,targets_json,effective_at,created_at)
VALUES($1,$2,$3,$4,$5,$6,$7,$8,'drain',$9,$10,$11) ON
CONFLICT(tenant_scope,old_policy_digest,new_policy_digest) DO NOTHING;

-- name: add_record
INSERT INTO
__S__.idempotency_records(tenant_scope,message_id,request_digest,task_id,state,admission_result_json,created_at,updated_at,digest_version,actor_account_id,causative_request_json,invocation_kind)
VALUES($1,$2,$3,$4,'in_progress',$5,$6,$6,2,$7,$8,$9);

-- name: add_reference
INSERT INTO
__S__.artifact_references(tenant_scope,reference_id,artifact_id,task_id,context_id,owner_account_id,task_revision,state,retain_until,created_at)
VALUES($1,$2,$3,$4,$5,$6,$7,'active',$8,$9) ON CONFLICT DO NOTHING;

-- name: add_request_receipt
INSERT INTO
__S__.quota_request_receipts(tenant_scope,invocation_id,mutation_binding_digest,policy_digest,scope_kind,scope_id,operation,dimension,window_start,units,capacity,created_at)
VALUES($1,$2,$3,$4,$5,$6,$7,$8,$9,$10,$11,$12);

-- name: add_reservation
INSERT INTO
__S__.quota_reservations(tenant_scope,reservation_id,account_id,principal_scope,operation,dimension,units,task_id,expires_at,metadata_json,created_at)
VALUES($1,$2,$3,$4,$5,$6,$7,$8,$9,$10,$11);

-- name: add_snapshot
INSERT INTO
__S__.list_snapshots(tenant_scope,snapshot_id,owner_account_id,scope_digest,query_digest,total_size,page_size,issued_at,expires_at,projection_version,frozen_bytes,metadata_digest)
VALUES($1,$2,$3,$4,$5,$6,$7,$8,$9,1,$10,$11);

-- name: add_snapshot_entry
INSERT INTO
__S__.list_snapshot_entries(tenant_scope,snapshot_id,ordinal,task_id,task_revision,task_digest,task_json)
VALUES($1,$2,$3,$4,$5,$6,$7);

-- name: add_task
INSERT INTO
__S__.tasks(tenant_scope,task_id,context_id,state,status_timestamp,revision,task_json,owner_account_id)
VALUES($1,$2,$3,$4,$5,1,$6,$7);

-- name: add_tombstone
INSERT INTO
__S__.artifact_tombstones(tenant_scope,object_id,tombstone_generation,reason_digest,locator_digest,deletion_receipt_digest,tombstoned_at,deleted_at)
VALUES($1,$2,$3,$4,$5,$6,__S__.db_millis(),__S__.db_millis());

-- name: add_transcript
INSERT INTO
__S__.stream_transcripts(tenant_scope,message_id,dispatch_id,task_id,transcript_version,state,frame_count,transcript_digest,created_at,updated_at)
VALUES($1,$2,$3,$4,1,'open',1,$5,$6,$6);

-- name: add_upload
INSERT INTO
__S__.upload_intents(tenant_scope,upload_id,artifact_id,object_id,state,stage_locator,final_locator,ciphertext_digest,ciphertext_length,lease_epoch,created_at,updated_at)
VALUES($1,$2,$3,$4,'committed',$5,$6,$7,$8,1,$9,$9) ON CONFLICT DO NOTHING;

-- name: admission_lock
SELECT pg_advisory_xact_lock(6001136200063);

-- name: all_tasks
SELECT tasks FROM __S__.authority_diagnostics_bounded();

-- name: artifact_migration
SELECT __S__.artifact_inline_migration_required($1);

-- name: await_receiver
UPDATE __S__.outbox SET
lease_owner='receiver-reconciliation',lease_token=$1,lease_until=$2,updated_at=$2 WHERE
tenant_scope=$3 AND outbox_id=$4 AND lease_token=$5;

-- name: backed_up
SELECT o.tombstone_generation FROM __S__.content_objects o WHERE o.tenant_scope=$1 AND
o.object_id=$2 AND o.state='available' AND o.retain_until>=__S__.db_millis() FOR UPDATE OF o;

-- name: callback_fault
SELECT set_config('smesh.test_callback_terminal_fault',$1,true);

-- name: callback_policies
SELECT
policy_id,policy_revision,policy_digest,max_configs_per_task,max_configs_per_tenant,max_pending,max_payload_bytes,max_attempts,max_delivery_age_ms
FROM __S__.callback_policy_snapshots;

-- name: callback_proof
SELECT proof FROM __S__.callback_worker_session_secret WHERE singleton=1;

-- name: callback_tenants
SELECT DISTINCT tenant_scope FROM __S__.callback_configs ORDER BY tenant_scope;

-- name: callback_violations
SELECT (SELECT count(*) FROM __S__.callback_enrollments e LEFT JOIN __S__.callback_policy_snapshots
p ON p.policy_id=e.policy_id AND p.policy_revision=e.policy_revision WHERE p.policy_id IS NULL OR
p.policy_digest IS NULL OR e.enrollment_generation<>e.policy_revision OR
e.url_digest<>'sha256:'||encode(sha256(convert_to(e.canonical_url,'UTF8')),'hex')) +(SELECT count(*)
FROM __S__.callback_configs c LEFT JOIN __S__.callback_enrollments e ON
e.tenant_scope=c.tenant_scope AND e.enrollment_id=c.enrollment_id AND
e.enrollment_generation=c.enrollment_generation WHERE e.enrollment_id IS NULL OR
c.canonical_url<>e.canonical_url OR c.url_digest<>e.url_digest) +(SELECT count(*) FROM
__S__.callback_events e WHERE e.payload_digest<>'sha256:'||encode(sha256(e.payload),'hex') OR
e.created_at<=0 OR e.expires_at<e.created_at) +(SELECT count(*) FROM __S__.callback_deliveries d
LEFT JOIN __S__.callback_events e ON e.tenant_scope=d.tenant_scope AND e.event_id=d.event_id LEFT
JOIN __S__.callback_configs c ON c.tenant_scope=d.tenant_scope AND c.task_id=d.task_id AND
c.config_id=d.config_id WHERE e.event_id IS NULL OR c.config_id IS NULL OR e.task_id<>d.task_id OR
d.attempt_count<0 OR d.attempt_count>32 OR d.lease_epoch<0 OR ((d.state='leased')<>(d.lease_owner IS
NOT NULL AND d.lease_token IS NOT NULL AND d.lease_until IS NOT NULL)) OR d.updated_at<d.created_at)
+(SELECT count(*) FROM __S__.callback_attempts a LEFT JOIN __S__.callback_deliveries d ON
d.tenant_scope=a.tenant_scope AND d.event_id=a.event_id AND d.config_id=a.config_id WHERE d.event_id
IS NULL OR a.attempt_no<1 OR a.attempt_no>d.attempt_count OR a.lease_epoch<1 OR
a.lease_epoch>d.lease_epoch OR a.finished_at<a.started_at OR a.outcome NOT IN
('delivered','retry','dead','canceled')) +(SELECT count(*) FROM (SELECT c.tenant_scope FROM
__S__.callback_configs c WHERE c.state<>'revoked' GROUP BY c.tenant_scope HAVING count(*)>(SELECT
p.max_configs_per_tenant FROM __S__.callback_policy_snapshots p ORDER BY p.policy_revision DESC
LIMIT 1)) over_tenant) +(SELECT count(*) FROM (SELECT c.tenant_scope,c.task_id FROM
__S__.callback_configs c WHERE c.state<>'revoked' GROUP BY c.tenant_scope,c.task_id HAVING
count(*)>(SELECT p.max_configs_per_task FROM __S__.callback_policy_snapshots p ORDER BY
p.policy_revision DESC LIMIT 1)) over_task) +(SELECT count(*) FROM __S__.callback_audits a WHERE
a.occurred_at<=0 OR NOT ( (a.event_kind='callback_policy_reconciled' AND
a.source_kind='callback_enrollments' AND EXISTS(SELECT 1 FROM __S__.callback_enrollments e WHERE
e.tenant_scope=a.tenant_scope AND
a.source_pk_digest=__S__.callback_audit_digest(a.event_kind,e.tenant_scope,'',e.enrollment_id,'',e.enrollment_generation,0)))
OR (a.event_kind IN ('callback_config_created','callback_config_deleted') AND
a.source_kind='callback_configs' AND EXISTS(SELECT 1 FROM __S__.callback_configs c WHERE
c.tenant_scope=a.tenant_scope AND
a.source_pk_digest=__S__.callback_audit_digest(a.event_kind,c.tenant_scope,c.task_id,c.config_id,'',c.enrollment_generation,0)))
OR (a.event_kind='callback_event_enqueued' AND a.source_kind='callback_events' AND EXISTS(SELECT 1
FROM __S__.callback_events e WHERE e.tenant_scope=a.tenant_scope AND
a.source_pk_digest=__S__.callback_audit_digest(a.event_kind,e.tenant_scope,e.task_id,'',e.event_id,e.causative_revision,0)))
OR (a.event_kind='callback_delivery_attempted' AND a.source_kind='callback_deliveries' AND
EXISTS(SELECT 1 FROM __S__.callback_deliveries d WHERE d.tenant_scope=a.tenant_scope AND
a.source_pk_digest=__S__.callback_audit_digest(a.event_kind,d.tenant_scope,d.task_id,d.config_id,d.event_id,0,d.attempt_count)))
OR (a.event_kind='callback_delivery_attempted' AND a.source_kind='callback_deliveries' AND
EXISTS(SELECT 1 FROM __S__.callback_attempts x JOIN __S__.callback_deliveries d ON
d.tenant_scope=x.tenant_scope AND d.event_id=x.event_id AND d.config_id=x.config_id WHERE
x.tenant_scope=a.tenant_scope AND
a.source_pk_digest=__S__.callback_audit_digest(a.event_kind,d.tenant_scope,d.task_id,d.config_id,d.event_id,0,x.attempt_no)))
OR (a.event_kind IN ('callback_delivered','callback_retry_scheduled','callback_dead') AND
a.source_kind='callback_deliveries' AND EXISTS(SELECT 1 FROM __S__.callback_attempts x JOIN
__S__.callback_deliveries d ON d.tenant_scope=x.tenant_scope AND d.event_id=x.event_id AND
d.config_id=x.config_id WHERE x.tenant_scope=a.tenant_scope AND x.outcome=CASE a.event_kind WHEN
'callback_delivered' THEN 'delivered' WHEN 'callback_retry_scheduled' THEN 'retry' ELSE 'dead' END
AND
a.source_pk_digest=__S__.callback_audit_digest(a.event_kind,d.tenant_scope,d.task_id,d.config_id,d.event_id,0,x.attempt_no)))
)) +(SELECT count(*) FROM ( WITH expected(tenant_scope,event_kind,source_kind,source_pk_digest) AS (
SELECT
tenant_scope,'callback_policy_reconciled','callback_enrollments',__S__.callback_audit_digest('callback_policy_reconciled',tenant_scope,'',enrollment_id,'',enrollment_generation,0)
FROM __S__.callback_enrollments UNION SELECT
tenant_scope,'callback_config_created','callback_configs',__S__.callback_audit_digest('callback_config_created',tenant_scope,task_id,config_id,'',enrollment_generation,0)
FROM __S__.callback_configs UNION SELECT
tenant_scope,'callback_config_deleted','callback_configs',__S__.callback_audit_digest('callback_config_deleted',tenant_scope,task_id,config_id,'',enrollment_generation,0)
FROM __S__.callback_configs WHERE state IN ('draining','revoked') UNION SELECT
tenant_scope,'callback_event_enqueued','callback_events',__S__.callback_audit_digest('callback_event_enqueued',tenant_scope,task_id,'',event_id,causative_revision,0)
FROM __S__.callback_events UNION SELECT
d.tenant_scope,'callback_delivery_attempted','callback_deliveries',__S__.callback_audit_digest('callback_delivery_attempted',d.tenant_scope,d.task_id,d.config_id,d.event_id,0,n.attempt_no)
FROM __S__.callback_deliveries d CROSS JOIN LATERAL generate_series(1,d.attempt_count) n(attempt_no)
UNION SELECT a.tenant_scope,CASE a.outcome WHEN 'delivered' THEN 'callback_delivered' WHEN 'retry'
THEN 'callback_retry_scheduled' WHEN 'dead' THEN 'callback_dead'
END,'callback_deliveries',__S__.callback_audit_digest(CASE a.outcome WHEN 'delivered' THEN
'callback_delivered' WHEN 'retry' THEN 'callback_retry_scheduled' WHEN 'dead' THEN 'callback_dead'
END,a.tenant_scope,d.task_id,a.config_id,a.event_id,0,a.attempt_no) FROM __S__.callback_attempts a
JOIN __S__.callback_deliveries d USING(tenant_scope,event_id,config_id) WHERE a.outcome IN
('delivered','retry','dead') UNION SELECT tenant_scope,CASE state WHEN 'delivered' THEN
'callback_delivered' WHEN 'retry' THEN 'callback_retry_scheduled' WHEN 'dead' THEN 'callback_dead'
END,'callback_deliveries',__S__.callback_audit_digest(CASE state WHEN 'delivered' THEN
'callback_delivered' WHEN 'retry' THEN 'callback_retry_scheduled' WHEN 'dead' THEN 'callback_dead'
END,tenant_scope,task_id,config_id,event_id,0,attempt_count) FROM __S__.callback_deliveries WHERE
state IN ('delivered','retry','dead') ), actual AS (SELECT
tenant_scope,event_kind,source_kind,source_pk_digest FROM __S__.callback_audits) (SELECT * FROM
expected EXCEPT SELECT * FROM actual) UNION ALL (SELECT * FROM actual EXCEPT SELECT * FROM expected)
) audit_difference) +(SELECT count(*) FROM (SELECT tenant_scope,event_kind,source_pk_digest FROM
__S__.callback_audits GROUP BY tenant_scope,event_kind,source_pk_digest HAVING count(*)<>1)
duplicates);

-- name: cancel_deliveries
SELECT __S__.cancel_callback_config_deliveries($1,$2,$3);

-- name: cancel_removed
UPDATE __S__.callback_deliveries d SET
state='canceled',lease_owner=NULL,lease_token=NULL,lease_until=NULL,updated_at=__S__.db_millis()
FROM __S__.callback_configs c WHERE d.tenant_scope=c.tenant_scope AND d.task_id=c.task_id AND
d.config_id=c.config_id AND NOT EXISTS(SELECT 1 FROM __S__.callback_enrollments n WHERE
n.policy_id=$1 AND n.policy_revision=$2 AND n.tenant_scope=c.tenant_scope AND
n.enrollment_id=c.enrollment_id AND n.enrollment_generation=c.enrollment_generation AND
n.canonical_url=c.canonical_url) AND (d.state IN ('pending','retry') OR (d.state='leased' AND
d.lease_until<=__S__.db_millis()));

-- name: canceled_transcript
SELECT message_id FROM __S__.stream_transcripts WHERE tenant_scope=$1 AND dispatch_id=$2 AND
state='open' FOR UPDATE;

-- name: cancellation_done
UPDATE __S__.cancellation_intents SET state='receiver_canceled',completed_at=$1 WHERE
tenant_scope=$2 AND dispatch_id=$3 AND state='requested';

-- name: cancellation_requested
SELECT EXISTS(SELECT 1 FROM __S__.cancellation_intents WHERE tenant_scope=$1 AND dispatch_id=$2 AND
task_id=$3 AND state='requested');

-- name: carry_bucket
INSERT INTO
__S__.quota_buckets(tenant_scope,policy_digest,scope_kind,scope_id,operation,dimension,algorithm,window_start,window_millis,capacity,used_units,available_tokens,last_refill_at,refill_numerator,refill_period_millis,refill_remainder,updated_at)
VALUES($1,$2,$3,$4,$5,$6,$7,$8,$9::bigint,$10,$11,$12,$13,CASE WHEN $7::text='tokenBucket' THEN
$10::bigint END,CASE WHEN $7::text='tokenBucket' THEN $9::bigint END,$14,$15) ON CONFLICT DO NOTHING;

-- name: catalog_column
SELECT
concat_ws('|','column',c.relname,a.attnum,a.attname,format_type(a.atttypid,a.atttypmod),a.attnotnull,a.attidentity,a.attgenerated,COALESCE(pg_get_expr(d.adbin,d.adrelid),''))
FROM pg_attribute a JOIN pg_class c ON c.oid=a.attrelid JOIN pg_namespace n ON n.oid=c.relnamespace
LEFT JOIN pg_attrdef d ON d.adrelid=a.attrelid AND d.adnum=a.attnum WHERE n.nspname=$1 AND
a.attnum>0 AND NOT a.attisdropped ORDER BY c.relname,a.attnum;

-- name: catalog_constraint
SELECT concat_ws('|','constraint',c.relname,x.conname,x.contype,pg_get_constraintdef(x.oid,true))
FROM pg_constraint x JOIN pg_class c ON c.oid=x.conrelid JOIN pg_namespace n ON n.oid=c.relnamespace
WHERE n.nspname=$1 ORDER BY c.relname,x.conname;

-- name: catalog_function
SELECT
concat_ws('|','function',p.proname,pg_get_function_identity_arguments(p.oid),owner.rolname,pg_get_functiondef(p.oid))
FROM pg_proc p JOIN pg_namespace n ON n.oid=p.pronamespace JOIN pg_roles owner ON
owner.oid=p.proowner WHERE n.nspname=$1 ORDER BY p.proname,pg_get_function_identity_arguments(p.oid);

-- name: catalog_grant
SELECT concat_ws('|','grant',table_name,grantee,privilege_type,is_grantable) FROM
information_schema.role_table_grants WHERE table_schema=$1 ORDER BY
table_name,grantee,privilege_type;

-- name: catalog_index
SELECT concat_ws('|','index',i.relname,pg_get_indexdef(i.oid)) FROM pg_class i JOIN pg_namespace n
ON n.oid=i.relnamespace WHERE n.nspname=$1 AND i.relkind='i' ORDER BY i.relname;

-- name: catalog_membership
SELECT concat_ws('|','membership',member.rolname,parent.rolname,am.admin_option) FROM
pg_auth_members am JOIN pg_roles member ON member.oid=am.member JOIN pg_roles parent ON
parent.oid=am.roleid WHERE member.rolname=$1||'_runtime' OR parent.rolname=$1||'_runtime' ORDER BY
member.rolname,parent.rolname;

-- name: catalog_policy
SELECT
concat_ws('|','policy',c.relname,p.polname,p.polcmd,p.polpermissive,COALESCE(pg_get_expr(p.polqual,p.polrelid),''),COALESCE(pg_get_expr(p.polwithcheck,p.polrelid),''),p.polroles::text)
FROM pg_policy p JOIN pg_class c ON c.oid=p.polrelid JOIN pg_namespace n ON n.oid=c.relnamespace
WHERE n.nspname=$1 ORDER BY c.relname,p.polname;

-- name: catalog_relation
SELECT
concat_ws('|','relation',c.relname,c.relkind,c.relrowsecurity,c.relforcerowsecurity,c.relpersistence)
FROM pg_class c JOIN pg_namespace n ON n.oid=c.relnamespace WHERE n.nspname=$1 ORDER BY 1;

-- name: catalog_role
SELECT
concat_ws('|','role',rolname,rolsuper,rolinherit,rolcreaterole,rolcreatedb,rolcanlogin,rolreplication,rolbypassrls)
FROM pg_roles WHERE rolname=$1||'_runtime' ORDER BY rolname;

-- name: catalog_routine_grant
SELECT concat_ws('|','routine-grant',routine_name,grantee,privilege_type,is_grantable) FROM
information_schema.role_routine_grants WHERE routine_schema=$1 ORDER BY
routine_name,grantee,privilege_type;

-- name: catalog_sequence_grant
SELECT concat_ws('|','sequence-grant',object_name,grantee,privilege_type,is_grantable) FROM
information_schema.usage_privileges WHERE object_schema=$1 ORDER BY
object_name,grantee,privilege_type;

-- name: catalog_trigger
SELECT concat_ws('|','trigger',c.relname,t.tgname,pg_get_triggerdef(t.oid,true)) FROM pg_trigger t
JOIN pg_class c ON c.oid=t.tgrelid JOIN pg_namespace n ON n.oid=c.relnamespace WHERE n.nspname=$1
AND NOT t.tgisinternal ORDER BY c.relname,t.tgname;

-- name: chunks
SELECT ordinal,byte_offset,plaintext_length,content_digest FROM __S__.artifact_chunks WHERE
tenant_scope=$1 AND artifact_id=$2 ORDER BY ordinal;

-- name: claim_callbacks
SELECT * FROM __S__.claim_callback_deliveries($1,$2,$3,$4,$5);

-- name: claim_gc
SELECT * FROM __S__.claim_artifact_gc($1,$2,$3,$4);

-- name: claim_orphan
INSERT INTO
__S__.artifact_orphan_candidates(stage_locator,locator_digest,ciphertext_length,state,claim_token,claim_generation,claim_until,claimed_at)
VALUES($1,$2,$3,'claimed',$4,1,__S__.db_millis()+30000,__S__.db_millis()) ON CONFLICT(stage_locator)
DO UPDATE SET
claim_token=EXCLUDED.claim_token,claim_generation=__S__.artifact_orphan_candidates.claim_generation+1,claim_until=EXCLUDED.claim_until,claimed_at=EXCLUDED.claimed_at
WHERE __S__.artifact_orphan_candidates.state='claimed' AND
__S__.artifact_orphan_candidates.claim_until<=__S__.db_millis() RETURNING claim_generation;

-- name: claim_outbox
SELECT
tenant_scope,outbox_id,dispatch_id,task_id,attempt_no,max_attempts,payload_json,quota_binding_digest,quota_reservation_id,quota_reservation_version,reserved_output_bytes,reserved_event_count,quota_policy_id,quota_policy_revision,quota_policy_digest
FROM __S__.claim_outbox_bounded($1,$2,$3,$4);

-- name: claim_projection
SELECT * FROM __S__.claim_audit_projection($1,$2,$3,$4);

-- name: claim_uploads
SELECT * FROM __S__.claim_artifact_upload($1,$2,$3,$4);

-- name: clean_decisions
SELECT * FROM __S__.cleanup_authorization_decisions($1,$2,$3);

-- name: clean_projection
SELECT __S__.cleanup_audit_projection($1,$2);

-- name: close_attempt
UPDATE __S__.outbox_attempts SET finished_at=$1,outcome=$2,error=$3,next_attempt_at=$4 WHERE
tenant_scope=$5 AND outbox_id=$6 AND attempt_no=$7 AND lease_token=$8 AND finished_at IS NULL;

-- name: close_final_attempt
UPDATE __S__.outbox_attempts SET finished_at=$1,outcome='dead',error=$2,next_attempt_at=NULL WHERE
tenant_scope=$3 AND outbox_id=$4 AND attempt_no=$5 AND lease_token=$6 AND finished_at IS NULL;

-- name: commit_projection
SELECT __S__.commit_audit_projection($1,$2,$3,$4);

-- name: complete_inbox
UPDATE __S__.receiver_inbox SET
state='completed',completion_kind=$1,termination_json=$2,frame_count=$3,transcript_digest=$4,measured_output_bytes=$5,measured_event_count=$6,completed_at=$7,updated_at=$7,lease_owner=NULL,lease_token=NULL,lease_until=NULL
WHERE tenant_scope=$8 AND dispatch_id=$9 AND state='processing' AND lease_token=$10 AND
lease_epoch=$11;

-- name: complete_record
UPDATE __S__.idempotency_records SET state='completed',final_result_json=$1,updated_at=$2 WHERE
tenant_scope=$3 AND message_id=$4 AND task_id=$5 AND state='in_progress';

-- name: config
SELECT config_id,enrollment_id,enrollment_generation,canonical_url,url_digest,state,created_at FROM
__S__.callback_configs WHERE tenant_scope=$1 AND task_id=$2 AND config_id=$3;

-- name: config_counts
SELECT count(*),count(*) FILTER (WHERE task_id=$2) FROM __S__.callback_configs WHERE tenant_scope=$1
AND state<>'revoked';

-- name: config_lock
SELECT pg_advisory_xact_lock(hashtextextended($1,17));

-- name: config_state
SELECT state FROM __S__.callback_configs WHERE tenant_scope=$1 AND task_id=$2 AND config_id=$3 FOR
UPDATE;

-- name: configs
SELECT
c.config_id,c.enrollment_id,c.enrollment_generation,c.canonical_url,c.url_digest,c.state,c.created_at
FROM __S__.callback_configs c JOIN __S__.tasks t USING(tenant_scope,task_id) WHERE c.tenant_scope=$1
AND c.task_id=$2 AND c.state<>'revoked' AND (NOT $3 OR t.owner_account_id=$4) AND (c.created_at>$5
OR (c.created_at=$5 AND c.config_id>$6)) ORDER BY c.created_at,c.config_id LIMIT $7;

-- name: count_reference
UPDATE __S__.content_objects SET reference_count=reference_count+1 WHERE tenant_scope=$1 AND
object_id=$2;

-- name: count_tenant_policies
SELECT count(*) FROM pg_policy p JOIN pg_class c ON c.oid=p.polrelid JOIN pg_namespace n ON
n.oid=c.relnamespace WHERE n.nspname=$1 AND p.polname='tenant_isolation';

-- name: db_millis
SELECT __S__.db_millis();

-- name: definers
SELECT p.proname::text,owner.rolname::text,p.proconfig FROM pg_proc p JOIN pg_namespace n ON
n.oid=p.pronamespace JOIN pg_roles owner ON owner.oid=p.proowner WHERE n.nspname=$1 AND p.prosecdef
ORDER BY p.proname;

-- name: delete_object
UPDATE __S__.content_objects SET state='deleted' WHERE tenant_scope=$1 AND object_id=$2 AND
tombstone_generation=$3 AND state='deleting';

-- name: deliver_attempt
UPDATE __S__.outbox_attempts SET finished_at=$1,outcome='delivered' WHERE tenant_scope=$2 AND
outbox_id=$3 AND attempt_no=$4;

-- name: deliver_dispatch
UPDATE __S__.outbox SET
state='delivered',lease_owner=NULL,lease_token=NULL,lease_until=NULL,updated_at=$1 WHERE
tenant_scope=$2 AND outbox_id=$3;

-- name: delivery_leased
SELECT EXISTS(SELECT 1 FROM __S__.callback_deliveries WHERE tenant_scope=$1 AND task_id=$2 AND
config_id=$3 AND state='leased' AND lease_until>__S__.db_millis());

-- name: denial
SELECT content_digest,policy_digest,bucket_digest,reason_digest,retry_after_seconds FROM
__S__.quota_denial_audits WHERE tenant_scope=$1 AND decision_key=$2;

-- name: denials
SELECT count(*)::bigint FROM __S__.quota_denial_audits WHERE tenant_scope=$1;

-- name: diagnostics
SELECT * FROM __S__.authority_diagnostics_bounded();

-- name: enable_projection
UPDATE __S__.audit_projection_control SET enabled=true WHERE singleton=1 AND NOT EXISTS(SELECT 1
FROM __S__.artifact_restore_jobs WHERE state='restoring');

-- name: end_backup_lease
UPDATE __S__.artifact_backup_leases SET state='released' WHERE tenant_scope=$1 AND lease_id=$2 AND
object_id=$3 AND lease_owner=$4 AND lease_token=$5 AND lease_epoch=$6 AND state='active';

-- name: end_gc
UPDATE __S__.artifact_gc_jobs SET
state='complete',lease_owner=NULL,lease_token=NULL,lease_until=NULL WHERE tenant_scope=$1 AND
job_id=$2 AND object_id=$3 AND tombstone_generation=$4 AND state='leased' AND lease_owner=$5 AND
lease_token=$6 AND lease_epoch=$7 AND lease_until>__S__.db_millis();

-- name: end_hold
UPDATE __S__.artifact_retention_holds SET state='released',released_at=$1 WHERE tenant_scope=$2 AND
hold_id=$3 AND artifact_id=$4 AND state='active';

-- name: end_orphan
UPDATE __S__.artifact_orphan_candidates SET
state='finalized',finalized_at=__S__.db_millis(),claim_until=__S__.db_millis() WHERE
stage_locator=$1 AND state='claimed' AND claim_token=$2 AND claim_generation=$3;

-- name: end_read_lease
UPDATE __S__.artifact_read_leases SET state='released' WHERE tenant_scope=$1 AND lease_id=$2 AND
lease_token=$3 AND lease_epoch=$4 AND state IN ('active','released');

-- name: end_reference
WITH released AS (UPDATE __S__.artifact_references SET state='released',released_at=$1 WHERE
tenant_scope=$2 AND reference_id=$3 AND owner_account_id=$4 AND task_id=$5 AND artifact_id=$6 AND
state='active' RETURNING tenant_scope,artifact_id), changed AS (UPDATE __S__.content_objects o SET
reference_count=o.reference_count-1 FROM __S__.artifact_manifests m JOIN released r
USING(tenant_scope,artifact_id) WHERE o.tenant_scope=m.tenant_scope AND o.object_id=m.object_id AND
o.reference_count>0 RETURNING o.object_id) SELECT count(*)::bigint FROM released;

-- name: end_upload
UPDATE __S__.upload_intents SET
state='available',lease_token=NULL,lease_until=NULL,updated_at=__S__.db_millis() WHERE
tenant_scope=$1 AND upload_id=$2 AND state='promoting' AND lease_token=$3 AND lease_epoch=$4 AND
lease_until>__S__.db_millis();

-- name: enqueue_callbacks
SELECT __S__.enqueue_terminal_callbacks($1,$2,$3,$4,$5,$6,$7,$8);

-- name: enrolled
SELECT EXISTS(SELECT 1 FROM __S__.callback_enrollments WHERE tenant_scope=$1 AND enrollment_id=$2
AND enrollment_generation=$3 AND canonical_url=$4 AND url_digest=$5 AND policy_id=$6 AND
policy_revision=$7 AND policy_revision=(SELECT max(policy_revision) FROM
__S__.callback_policy_snapshots));

-- name: enrollment
SELECT enrollment_generation FROM __S__.callback_enrollments WHERE tenant_scope=$1 AND
canonical_url=$2 AND policy_id=$3 AND policy_revision=$4 AND policy_revision=(SELECT
max(policy_revision) FROM __S__.callback_policy_snapshots) ORDER BY enrollment_generation DESC LIMIT
1;

-- name: enrollment_count
SELECT count(*) FROM __S__.callback_enrollments WHERE policy_id=$1 AND policy_revision=$2;

-- name: event_before
SELECT e.event_json,e.task_revision FROM __S__.task_events e JOIN __S__.tasks t ON
t.tenant_scope=e.tenant_scope AND t.task_id=e.task_id WHERE e.tenant_scope=$1 AND e.task_id=$2 AND
e.task_revision<=$3 AND ($4::boolean=false OR t.owner_account_id=$5) ORDER BY e.task_revision DESC
LIMIT 1;

-- name: events_after
SELECT e.event_json,e.task_revision FROM __S__.task_events e JOIN __S__.tasks t ON
t.tenant_scope=e.tenant_scope AND t.task_id=e.task_id WHERE e.tenant_scope=$1 AND e.task_id=$2 AND
e.task_revision>$3 AND ($4::boolean=false OR t.owner_account_id=$5) ORDER BY e.task_revision;

-- name: evidence_gaps
SELECT (SELECT count(*) FROM __S__.quota_intents i LEFT JOIN __S__.quota_policy_versions p ON
p.tenant_scope=i.tenant_scope AND p.policy_id=i.policy_id AND p.policy_revision=i.policy_revision
WHERE p.policy_id IS NULL OR p.policy_digest<>i.policy_digest) + (SELECT count(*) FROM
__S__.quota_receipts r LEFT JOIN __S__.quota_intents i USING(tenant_scope,binding_digest) WHERE
i.binding_digest IS NULL) + (SELECT count(*) FROM __S__.quota_allocations a LEFT JOIN
__S__.quota_intents i USING(tenant_scope,binding_digest) WHERE i.binding_digest IS NULL) + (SELECT
count(*) FROM __S__.quota_leases l LEFT JOIN __S__.quota_intents i
USING(tenant_scope,binding_digest) WHERE i.binding_digest IS NULL);

-- name: execution_by_key
SELECT
binding_digest,policy_id,policy_revision,policy_digest,account_id,principal_scope,task_id,message_id,dispatch_id,reserved_output_bytes,reserved_event_count,reservation_version,operation
FROM __S__.quota_execution_reservations WHERE tenant_scope=$1 AND reservation_id=$2;

-- name: execution_of_dispatch
SELECT
reservation_id,reserved_output_bytes,reserved_event_count,account_id,principal_scope,task_id,message_id,dispatch_id,operation
FROM __S__.quota_execution_reservations WHERE tenant_scope=$1 AND dispatch_id=$2;

-- name: execution_receipts
SELECT
r.scope_kind,r.scope_id,r.dimension,r.window_start,r.units,i.policy_digest,i.operation,(SELECT
b.used_units FROM __S__.quota_buckets b WHERE b.tenant_scope=r.tenant_scope AND
b.policy_digest=i.policy_digest AND b.scope_kind=r.scope_kind AND b.scope_id=r.scope_id AND
b.operation=i.operation AND b.dimension=r.dimension AND b.window_start=r.window_start) FROM
__S__.quota_receipts r JOIN __S__.quota_intents i USING(tenant_scope,binding_digest) WHERE
r.tenant_scope=$1 AND r.binding_digest=$2 AND r.dimension IN ('outputBytes','eventCount') ORDER BY
r.scope_kind,r.dimension;

-- name: expire_leases
WITH selected AS MATERIALIZED (SELECT tenant_scope,lease_id FROM __S__.quota_leases WHERE
tenant_scope=$1 AND state='active' AND lease_until<=$2 ORDER BY lease_until,lease_id FOR UPDATE SKIP
LOCKED LIMIT $3), expired AS (UPDATE __S__.quota_leases l SET state='expired',updated_at=$2 FROM
selected s WHERE l.tenant_scope=s.tenant_scope AND l.lease_id=s.lease_id RETURNING
l.binding_digest), released AS (SELECT
i.policy_digest,i.operation,r.scope_kind,r.scope_id,r.dimension,r.window_start,sum(r.units)::bigint
units FROM expired e JOIN __S__.quota_receipts r ON r.tenant_scope=$1 AND
r.binding_digest=e.binding_digest JOIN __S__.quota_intents i ON i.tenant_scope=r.tenant_scope AND
i.binding_digest=r.binding_digest WHERE r.dimension IN
('concurrentStreams','concurrentSubscriptions') GROUP BY
i.policy_digest,i.operation,r.scope_kind,r.scope_id,r.dimension,r.window_start), adjusted AS (UPDATE
__S__.quota_buckets b SET used_units=GREATEST(b.used_units-released.units,0),updated_at=$2 FROM
released WHERE b.tenant_scope=$1 AND b.policy_digest=released.policy_digest AND
b.operation=released.operation AND b.scope_kind=released.scope_kind AND b.scope_id=released.scope_id
AND b.dimension=released.dimension AND b.window_start=released.window_start RETURNING
b.policy_digest) SELECT count(*)::bigint FROM expired;

-- name: expire_snapshots
DELETE FROM __S__.list_snapshots WHERE tenant_scope=$1 AND expires_at<=__S__.db_millis();

-- name: extend_dispatch
UPDATE __S__.outbox SET lease_until=$1,updated_at=$2 WHERE tenant_scope=$3 AND outbox_id=$4;

-- name: extend_inbox
UPDATE __S__.receiver_inbox SET lease_until=$1,updated_at=$2 WHERE tenant_scope=$3 AND
dispatch_id=$4;

-- name: fail_gc
UPDATE __S__.artifact_gc_jobs SET
state='pending',available_at=__S__.db_millis(),lease_owner=NULL,lease_token=NULL,lease_until=NULL,last_error_digest=$1
WHERE tenant_scope=$2 AND job_id=$3 AND object_id=$4 AND tombstone_generation=$5 AND state='leased'
AND lease_owner=$6 AND lease_token=$7 AND lease_epoch=$8;

-- name: fail_projection
SELECT __S__.fail_audit_projection($1,$2,$3,$4,$5,$6);

-- name: fail_upload
UPDATE __S__.upload_intents SET
state='failed',last_error_digest=$1,lease_token=NULL,lease_until=NULL,updated_at=__S__.db_millis()
WHERE tenant_scope=$2 AND upload_id=$3 AND state='promoting' AND lease_token=$4 AND lease_epoch=$5;

-- name: fence_violations
SELECT count(*) FROM __S__.receiver_inbox r LEFT JOIN __S__.outbox o ON
o.tenant_scope=r.tenant_scope AND o.dispatch_id=r.dispatch_id AND o.task_id=r.task_id AND
o.payload_digest=r.payload_digest LEFT JOIN __S__.outbox_attempts a ON a.tenant_scope=r.tenant_scope
AND a.outbox_id=o.outbox_id AND a.attempt_no=r.sender_attempt_no AND
a.lease_token=r.sender_lease_token LEFT JOIN __S__.tasks t ON t.tenant_scope=r.tenant_scope AND
t.task_id=r.task_id WHERE o.outbox_id IS NULL OR a.outbox_id IS NULL OR t.task_id IS NULL OR
r.sender_attempt_no<1 OR r.sender_attempt_no>o.max_attempts;

-- name: final_fence
SELECT message_id,payload_digest FROM __S__.outbox WHERE tenant_scope=$1 AND outbox_id=$2 AND
dispatch_id=$3 AND task_id=$4 AND state='leased' AND lease_owner=$5 AND lease_token=$6 AND
lease_until=$7 AND attempt_count=$8 AND max_attempts=$9 FOR UPDATE;

-- name: final_result
SELECT final_result_json FROM __S__.idempotency_records WHERE tenant_scope=$1 AND message_id=$2 AND
state='completed';

-- name: finish_callback
SELECT __S__.finish_callback_delivery($1,$2,$3,$4,$5,$6,$7,$8,$9,$10);

-- name: frames
SELECT frame_seq,frame_version,frame_kind,frame_json,frame_digest FROM __S__.stream_frames WHERE
tenant_scope=$1 AND message_id=$2 ORDER BY frame_seq;

-- name: gc_lock_limit
SET LOCAL lock_timeout='2s';

-- name: gc_quota
SELECT __S__.gc_quota_authority_bounded($1,$2);

-- name: gc_time_limit
SET LOCAL statement_timeout='5s';

-- name: holdable
SELECT o.tombstone_generation FROM __S__.artifact_manifests m JOIN __S__.content_objects o
USING(tenant_scope,object_id) WHERE m.tenant_scope=$1 AND m.artifact_id=$2 AND o.state='available'
AND o.retain_until>=__S__.db_millis() FOR UPDATE OF o;

-- name: inbox_fence
SELECT
task_id,payload_digest,sender_attempt_no,sender_lease_token,state='processing',lease_owner,lease_token,lease_epoch,lease_until,quota_binding_digest,quota_reservation_id,quota_reservation_version,reserved_output_bytes,reserved_event_count
FROM __S__.receiver_inbox WHERE tenant_scope=$1 AND dispatch_id=$2 FOR UPDATE;

-- name: interrupt_transcript
UPDATE __S__.stream_transcripts SET state='interrupted',interruption_error=$1,updated_at=$2 WHERE
tenant_scope=$3 AND message_id=$4 AND dispatch_id=$5 AND task_id=$6 AND state='open';

-- name: keep_tombstoned
UPDATE __S__.content_objects SET state='tombstoned' WHERE tenant_scope=$1 AND object_id=$2 AND
tombstone_generation=$3 AND state='deleting';

-- name: key_generations
SELECT DISTINCT key_generation FROM __S__.content_objects WHERE state<>'deleted' UNION SELECT
DISTINCT d.key_generation FROM __S__.artifact_backup_key_dependencies d JOIN
__S__.artifact_backup_jobs b USING(tenant_scope,backup_id) WHERE b.state='sealed' AND d.released_at
IS NULL AND d.required_until>__S__.db_millis() ORDER BY key_generation;

-- name: latest_callback_policy
SELECT
policy_id,policy_revision,policy_digest,max_configs_per_task,max_configs_per_tenant,max_pending,max_payload_bytes,max_attempts,max_delivery_age_ms
FROM __S__.callback_policy_snapshots ORDER BY policy_revision DESC LIMIT 1;

-- name: lease_violations
SELECT count(*)::bigint FROM __S__.quota_leases l JOIN __S__.quota_intents i ON
i.tenant_scope=l.tenant_scope AND i.binding_digest=l.binding_digest WHERE l.account_id<>i.account_id
OR l.principal_scope<>i.principal_scope OR l.operation<>i.operation OR
l.policy_digest<>i.policy_digest OR NOT EXISTS (SELECT 1 FROM __S__.quota_receipts r WHERE
r.tenant_scope=l.tenant_scope AND r.binding_digest=l.binding_digest AND r.dimension=CASE
l.lease_kind WHEN 'messageStream' THEN 'concurrentStreams' ELSE 'concurrentSubscriptions' END);

-- name: left_orphans
SELECT stage_locator,ciphertext_length FROM __S__.artifact_orphan_candidates WHERE state='claimed'
AND claim_until<=__S__.db_millis() ORDER BY claim_until,stage_locator LIMIT $1;

-- name: list_snapshots
SELECT
tenant_scope,snapshot_id,scope_digest,query_digest,total_size,page_size,issued_at,expires_at,projection_version,frozen_bytes,metadata_digest
FROM __S__.list_snapshots ORDER BY tenant_scope,snapshot_id;

-- name: list_tasks
SELECT task_id,revision,task_json FROM __S__.tasks WHERE tenant_scope=$1 AND (NOT $2 OR
owner_account_id=$3) AND ($4::text IS NULL OR context_id=$4) AND ($5::text IS NULL OR state=$5) AND
($6::text IS NULL OR status_timestamp>=$6) ORDER BY status_timestamp DESC NULLS LAST,task_id ASC;

-- name: live_allocations
SELECT COALESCE(sum(a.units),0)::bigint FROM __S__.quota_allocations a JOIN __S__.quota_intents i
USING(tenant_scope,binding_digest) WHERE a.tenant_scope=$1 AND a.scope_kind=$2 AND a.scope_id=$3 AND
a.dimension=$4 AND a.state='active' AND i.operation=$5 AND $6::bigint IS NOT NULL;

-- name: live_leases
SELECT COALESCE(sum(r.units),0)::bigint FROM __S__.quota_leases l JOIN __S__.quota_receipts r
USING(tenant_scope,binding_digest) WHERE l.tenant_scope=$1 AND r.scope_kind=$2 AND r.scope_id=$3 AND
r.dimension=$4 AND l.state='active' AND l.lease_until>$6 AND l.operation=$5;

-- name: live_reservations
SELECT COALESCE(sum(r.units),0)::bigint FROM __S__.quota_execution_reservations q JOIN
__S__.quota_receipts r USING(tenant_scope,binding_digest) WHERE q.tenant_scope=$1 AND
r.scope_kind=$2 AND r.scope_id=$3 AND r.dimension=$4 AND q.state='reserved' AND q.operation=$5 AND
$6::bigint IS NOT NULL;

-- name: lock_bucket
SELECT
window_start,capacity,used_units,available_tokens,last_refill_at,refill_numerator,refill_period_millis,refill_remainder,updated_at
FROM __S__.quota_buckets WHERE tenant_scope=$1 AND policy_digest=$2 AND scope_kind=$3 AND
scope_id=$4 AND operation=$5 AND dimension=$6 AND window_start=$7 FOR UPDATE;

-- name: lock_cancelable
SELECT t.task_json,t.revision,i.message_id,o.dispatch_id FROM __S__.tasks t JOIN __S__.outbox o ON
o.tenant_scope=t.tenant_scope AND o.task_id=t.task_id JOIN __S__.idempotency_records i ON
i.tenant_scope=o.tenant_scope AND i.message_id=o.message_id AND i.task_id=o.task_id WHERE
t.tenant_scope=$1 AND t.task_id=$2 AND ($3::boolean=false OR t.owner_account_id=$4) ORDER BY
(o.state IN ('pending','leased','delivered')) DESC,o.outbox_id DESC LIMIT 1 FOR UPDATE OF t,o;

-- name: lock_dispatch
SELECT
state,lease_owner,lease_token,lease_until,attempt_count,max_attempts,message_id,payload_digest,causative_revision,quota_binding_digest,quota_reservation_id,quota_reservation_version,reserved_output_bytes,reserved_event_count
FROM __S__.outbox WHERE tenant_scope=$1 AND outbox_id=$2 AND dispatch_id=$3 AND task_id=$4 FOR
UPDATE;

-- name: lock_execution
SELECT
actual_output_bytes,actual_event_count,binding_digest,reserved_output_bytes,reserved_event_count,state
FROM __S__.quota_execution_reservations WHERE tenant_scope=$1 AND reservation_id=$2 AND
reservation_version=$3 AND task_id=$4 AND dispatch_id=$5 FOR UPDATE;

-- name: lock_inbox
SELECT
payload_digest,lease_until,lease_epoch,completion_kind,termination_json,frame_count,transcript_digest,measured_output_bytes,measured_event_count,state,quota_binding_digest,quota_reservation_id,quota_reservation_version,reserved_output_bytes,reserved_event_count
FROM __S__.receiver_inbox WHERE tenant_scope=$1 AND dispatch_id=$2 FOR UPDATE;

-- name: lock_locator
SELECT pg_advisory_xact_lock(hashtextextended($1,0));

-- name: lock_open_transcript
SELECT frame_count,transcript_digest FROM __S__.stream_transcripts WHERE tenant_scope=$1 AND
message_id=$2 AND dispatch_id=$3 AND task_id=$4 AND state='open' FOR UPDATE;

-- name: lock_owned_task
SELECT task_json,state,revision,context_id FROM __S__.tasks WHERE tenant_scope=$1 AND task_id=$2 AND
($3::boolean=false OR owner_account_id=$4) FOR UPDATE;

-- name: lock_receiver
SELECT payload_digest,state,lease_until,sender_attempt_no,sender_lease_token FROM
__S__.receiver_inbox WHERE tenant_scope=$1 AND dispatch_id=$2 AND task_id=$3 FOR UPDATE;

-- name: lock_record
SELECT request_digest,admission_result_json,final_result_json,task_id FROM __S__.idempotency_records
WHERE tenant_scope=$1 AND message_id=$2 FOR UPDATE;

-- name: lock_retained
SELECT retained_bytes FROM __S__.retained_authority_usage WHERE tenant_scope=$1 AND
scope_kind='tenant' AND scope_id=$1 FOR UPDATE;

-- name: lock_sender
SELECT
o.attempt_count,o.lease_token,o.quota_binding_digest,o.quota_reservation_id,o.quota_reservation_version,o.reserved_output_bytes,o.reserved_event_count,q.policy_id,q.policy_revision,q.policy_digest
FROM __S__.outbox o LEFT JOIN __S__.quota_execution_reservations q ON q.tenant_scope=o.tenant_scope
AND q.reservation_id=o.quota_reservation_id WHERE o.tenant_scope=$1 AND o.dispatch_id=$2 AND
o.task_id=$3 AND o.payload_digest=$4 AND o.payload_json=$5 AND o.state='leased' AND o.lease_token IS
NOT NULL FOR UPDATE OF o;

-- name: lock_task
SELECT task_json,state,revision FROM __S__.tasks WHERE tenant_scope=$1 AND task_id=$2 FOR UPDATE;

-- name: make_bucket
INSERT INTO
__S__.quota_buckets(tenant_scope,policy_digest,scope_kind,scope_id,operation,dimension,algorithm,window_start,window_millis,capacity,used_units,available_tokens,last_refill_at,refill_numerator,refill_period_millis,refill_remainder,updated_at)
VALUES($1,$2,$3,$4,$5,$6,$7,$8,$9::bigint,$10,0,CASE WHEN $7::text='tokenBucket' THEN $10::bigint
END,CASE WHEN $7::text='tokenBucket' THEN $11::bigint END,CASE WHEN $7::text='tokenBucket' THEN
$10::bigint END,CASE WHEN $7::text='tokenBucket' THEN $9::bigint END,CASE WHEN
$7::text='tokenBucket' THEN 0::bigint END,$11) ON CONFLICT DO NOTHING;

-- name: manifests
SELECT
m.artifact_id,m.manifest_digest,m.canonical_json,m.owner_account_id,m.task_id,m.context_id,m.message_id,m.dispatch_id,m.media_type,m.plaintext_length,m.classification,m.encryption_domain,m.policy_id,m.policy_revision,m.policy_digest,m.created_at,m.retain_until,o.content_digest,o.key_generation,m.tenant_scope
FROM __S__.artifact_manifests m JOIN __S__.content_objects o USING(tenant_scope,object_id);

-- name: membership_walk
WITH RECURSIVE membership_walk(root_oid,role_oid,path,cycle,depth) AS ( SELECT
r.oid,r.oid,ARRAY[r.oid],false,0 FROM pg_roles r WHERE r.rolname=$1 UNION ALL SELECT
w.root_oid,am.roleid,w.path||am.roleid,am.roleid=ANY(w.path),w.depth+1 FROM membership_walk w JOIN
pg_auth_members am ON am.member=w.role_oid WHERE NOT w.cycle AND w.depth<64 ) SELECT
role.rolname,w.cycle,w.depth, role.rolsuper,role.rolinherit,role.rolcreaterole,role.rolcreatedb,
role.rolcanlogin,role.rolreplication,role.rolbypassrls FROM membership_walk w JOIN pg_roles root ON
root.oid=w.root_oid JOIN pg_roles role ON role.oid=w.role_oid ORDER BY
root.rolname,w.depth,role.rolname;

-- name: migration
SELECT logical_schema_version,checksum FROM __S__.schema_migrations WHERE revision=$1;

-- name: migrations
SELECT revision,logical_schema_version,name,checksum FROM __S__.schema_migrations ORDER BY revision;

-- name: move_sender_fence
UPDATE __S__.receiver_inbox SET sender_attempt_no=$1,sender_lease_token=$2 WHERE tenant_scope=$3 AND
dispatch_id=$4 AND task_id=$5 AND payload_digest=$6 AND state='processing' AND sender_attempt_no=$7
AND sender_lease_token=$8;

-- name: object
SELECT owner_account_id,content_digest,classification,encryption_domain,plaintext_length FROM
__S__.content_objects WHERE tenant_scope=$1 AND object_id=$2;

-- name: offer_object
UPDATE __S__.content_objects SET state='available',available_at=__S__.db_millis() WHERE
tenant_scope=$1 AND object_id=$2 AND state='staged';

-- name: open_transcript
SELECT s.message_id,s.frame_count,s.transcript_digest,t.task_id,t.context_id FROM
__S__.stream_transcripts s JOIN __S__.tasks t ON t.tenant_scope=s.tenant_scope AND
t.task_id=s.task_id WHERE s.tenant_scope=$1 AND s.dispatch_id=$2 AND s.state='open' FOR UPDATE OF s;

-- name: orphan_live
SELECT pg_advisory_xact_lock(hashtextextended($1,0)),__S__.artifact_stage_locator_live($1);

-- name: orphan_owned
SELECT ciphertext_length FROM __S__.artifact_orphan_candidates WHERE stage_locator=$1 AND
state='claimed' AND claim_token=$2 AND claim_generation=$3 FOR UPDATE;

-- name: orphaned
SELECT EXISTS(SELECT 1 FROM __S__.artifact_orphan_candidates WHERE stage_locator=$1);

-- name: over_retained
SELECT EXISTS(SELECT 1 FROM __S__.retained_authority_usage WHERE tenant_scope=$1 AND scope_kind=$2
AND retained_bytes>$3);

-- name: page
SELECT
p.snapshot_id,p.scope_digest,p.query_digest,s.total_size,s.page_size,p.issued_at,p.expires_at,s.projection_version,s.frozen_bytes,p.next_position,p.token_version,p.key_generation,s.metadata_digest,s.owner_account_id
FROM __S__.list_page_tokens p JOIN __S__.list_snapshots s ON s.tenant_scope=p.tenant_scope AND
s.snapshot_id=p.snapshot_id WHERE p.tenant_scope=$1 AND p.token_hash=$2;

-- name: page_entries
SELECT ordinal,task_id,task_digest,task_json FROM __S__.list_snapshot_entries WHERE tenant_scope=$1
AND snapshot_id=$2 AND ordinal>=$3 ORDER BY ordinal LIMIT $4;

-- name: plain_indexes
SELECT i.relname::text FROM pg_index x JOIN pg_class i ON i.oid=x.indexrelid JOIN pg_class t ON
t.oid=x.indrelid JOIN pg_namespace n ON n.oid=t.relnamespace LEFT JOIN pg_constraint c ON
c.conindid=i.oid WHERE n.nspname=$1 AND c.oid IS NULL ORDER BY i.relname;

-- name: policy_buckets
SELECT
scope_kind,scope_id,operation,dimension,algorithm,window_start,window_millis,used_units,updated_at,available_tokens,last_refill_at,refill_remainder
FROM __S__.quota_buckets WHERE tenant_scope=$1 AND policy_digest=$2 ORDER BY
scope_kind,scope_id,operation,dimension,window_start FOR UPDATE;

-- name: policy_count
SELECT count(*) FROM __S__.callback_policy_snapshots;

-- name: policy_fence
SELECT pg_advisory_xact_lock($1);

-- name: projection_proof
SELECT proof FROM __S__.audit_projection_session_secret WHERE singleton=1;

-- name: provenance
SELECT parent_artifact_id,relation FROM __S__.provenance_edges WHERE tenant_scope=$1 AND
child_artifact_id=$2 ORDER BY ordinal;

-- name: provenance_violations
WITH RECURSIVE walk(tenant_scope,start_id,node,path,cycle) AS ( SELECT
p.tenant_scope,p.child_artifact_id,p.parent_artifact_id,ARRAY[p.child_artifact_id,p.parent_artifact_id],false
FROM __S__.provenance_edges p UNION ALL SELECT
w.tenant_scope,w.start_id,p.parent_artifact_id,w.path||p.parent_artifact_id,p.parent_artifact_id=ANY(w.path)
FROM walk w JOIN __S__.provenance_edges p ON p.tenant_scope=w.tenant_scope AND
p.child_artifact_id=w.node WHERE NOT w.cycle AND cardinality(w.path)<=33) SELECT (SELECT count(*)
FROM walk WHERE cycle) +(SELECT count(*) FROM __S__.provenance_edges p JOIN __S__.artifact_manifests
c ON c.tenant_scope=p.tenant_scope AND c.artifact_id=p.child_artifact_id JOIN
__S__.artifact_manifests a ON a.tenant_scope=p.tenant_scope AND a.artifact_id=p.parent_artifact_id
WHERE c.encryption_domain<>a.encryption_domain OR CASE c.classification WHEN 'public' THEN 0 WHEN
'internal' THEN 1 WHEN 'confidential' THEN 2 ELSE 3 END < CASE a.classification WHEN 'public' THEN 0
WHEN 'internal' THEN 1 WHEN 'confidential' THEN 2 ELSE 3 END);

-- name: quarantine
WITH target AS (SELECT object_id FROM __S__.artifact_manifests WHERE tenant_scope=$1 AND
artifact_id=$2), quarantined AS (UPDATE __S__.content_objects o SET state='quarantined' FROM target
t WHERE o.tenant_scope=$1 AND o.object_id=t.object_id AND o.state<>'deleted' RETURNING o.object_id)
INSERT INTO
__S__.artifact_corruption_audits(tenant_scope,audit_id,object_id,artifact_id,detection_digest,detected_at)
SELECT $1,$3,q.object_id,$2,$4,__S__.db_millis() FROM quarantined q ON CONFLICT DO NOTHING;

-- name: quota_intent
SELECT
i.binding_digest,i.account_id,i.principal_scope,i.semantic_id,i.task_id,i.policy_id,i.policy_revision,i.policy_digest,i.operation,p.canonical_json
FROM __S__.quota_intents i JOIN __S__.quota_policy_versions p ON p.tenant_scope=i.tenant_scope AND
p.policy_id=i.policy_id AND p.policy_revision=i.policy_revision WHERE i.tenant_scope=$1 AND
(i.binding_digest=$2 OR (i.operation=$3 AND i.semantic_id=$4 AND i.account_id=$5 AND
i.principal_scope=$6)) ORDER BY (i.binding_digest=$2) DESC LIMIT 1;

-- name: quota_reservations
SELECT
q.tenant_scope,q.reservation_id,q.account_id,q.principal_scope,q.operation,q.dimension,q.units,q.task_id,q.expires_at,q.metadata_json,q.created_at,t.owner_account_id
FROM __S__.quota_reservations q LEFT JOIN __S__.tasks t ON t.tenant_scope=q.tenant_scope AND
t.task_id=q.task_id;

-- name: receiver_frames
SELECT frame_seq,frame_version,frame_kind,frame_json,frame_digest FROM __S__.receiver_frames WHERE
tenant_scope=$1 AND dispatch_id=$2 ORDER BY frame_seq;

-- name: receiver_measurement
SELECT state='completed',measured_output_bytes,measured_event_count FROM __S__.receiver_inbox WHERE
tenant_scope=$1 AND dispatch_id=$2 AND task_id=$3 AND quota_reservation_id=$4 FOR UPDATE;

-- name: receiver_state
SELECT state,lease_until FROM __S__.receiver_inbox WHERE tenant_scope=$1 AND dispatch_id=$2;

-- name: reclaim_inbox
UPDATE __S__.receiver_inbox SET
lease_epoch=$1,lease_owner=$2,lease_token=$3,lease_until=$4,updated_at=$5,sender_attempt_no=$6,sender_lease_token=$7
WHERE tenant_scope=$8 AND task_id=$9 AND dispatch_id=$10 AND payload_digest=$11 AND
state='processing';

-- name: reconcile_sender_fence
UPDATE __S__.receiver_inbox SET sender_lease_token=$1 WHERE tenant_scope=$2 AND dispatch_id=$3 AND
task_id=$4 AND sender_attempt_no=$5 AND sender_lease_token=$6;

-- name: reconciliations
SELECT
tenant_scope,reconciliation_id,old_policy_digest,new_policy_digest,actor_digest,reason_digest,targets_json,effective_at
FROM __S__.quota_policy_reconciliation_audits ORDER BY tenant_scope,reconciliation_id;

-- name: record_result
UPDATE __S__.idempotency_records SET state='completed',final_result_json=$1,updated_at=$2 WHERE
tenant_scope=$3 AND message_id=$4 AND task_id=$5;

-- name: refund_bucket
UPDATE __S__.quota_buckets SET used_units=$8,updated_at=$9 WHERE tenant_scope=$1 AND
policy_digest=$2 AND scope_kind=$3 AND scope_id=$4 AND operation=$5 AND dimension=$6 AND
window_start=$7;

-- name: release_quota_lease
UPDATE __S__.quota_leases SET state='released',updated_at=$5 WHERE tenant_scope=$1 AND lease_id=$2
AND lease_token=$3 AND lease_epoch=$4 AND state='active' AND lease_until>$5 RETURNING binding_digest;

-- name: removed_leased
SELECT EXISTS(SELECT 1 FROM __S__.callback_configs c JOIN __S__.callback_deliveries d
USING(tenant_scope,task_id,config_id) WHERE NOT EXISTS(SELECT 1 FROM __S__.callback_enrollments n
WHERE n.policy_id=$1 AND n.policy_revision=$2 AND n.tenant_scope=c.tenant_scope AND
n.enrollment_id=c.enrollment_id AND n.enrollment_generation=c.enrollment_generation AND
n.canonical_url=c.canonical_url) AND d.state='leased' AND d.lease_until>__S__.db_millis());

-- name: renew_backup_lease
UPDATE __S__.artifact_backup_leases SET
lease_epoch=lease_epoch+1,lease_token=$1,lease_until=__S__.db_millis()+$2 WHERE tenant_scope=$3 AND
lease_id=$4 AND object_id=$5 AND lease_owner=$6 AND lease_token=$7 AND lease_epoch=$8 AND
state='active' AND lease_until>__S__.db_millis() RETURNING lease_epoch,lease_until;

-- name: renew_callback
SELECT __S__.renew_callback_delivery($1,$2,$3,$4,$5,$6,$7);

-- name: renew_quota_lease
UPDATE __S__.quota_leases SET lease_until=$6,updated_at=$5 WHERE tenant_scope=$1 AND lease_id=$2 AND
lease_token=$3 AND lease_epoch=$4 AND state='active' AND lease_until>$5 RETURNING lease_until;

-- name: reopen_attempt
UPDATE __S__.outbox_attempts SET
lease_token=$1,started_at=$2,finished_at=NULL,outcome=NULL,error=NULL,next_attempt_at=NULL WHERE
tenant_scope=$3 AND outbox_id=$4 AND attempt_no=$5 AND finished_at IS NULL;

-- name: request_cancellation
INSERT INTO __S__.cancellation_intents(tenant_scope,dispatch_id,task_id,state,requested_at)
VALUES($1,$2,$3,'requested',$4) ON CONFLICT(tenant_scope,dispatch_id) DO NOTHING;

-- name: reservation
SELECT account_id,principal_scope,operation,dimension,units,task_id,expires_at,metadata_json FROM
__S__.quota_reservations WHERE tenant_scope=$1 AND reservation_id=$2;

-- name: reservation_violations
SELECT count(*)::bigint FROM __S__.quota_execution_reservations q JOIN __S__.quota_intents i
USING(tenant_scope,binding_digest) JOIN __S__.outbox o ON o.tenant_scope=q.tenant_scope AND
o.dispatch_id=q.dispatch_id AND o.task_id=q.task_id WHERE q.policy_id<>i.policy_id OR
q.policy_revision<>i.policy_revision OR q.policy_digest<>i.policy_digest OR
q.account_id<>i.account_id OR q.principal_scope<>i.principal_scope OR q.operation<>i.operation OR
o.quota_binding_digest<>q.binding_digest OR o.quota_reservation_id<>q.reservation_id OR
o.quota_reservation_version<>q.reservation_version OR
o.reserved_output_bytes<>q.reserved_output_bytes OR o.reserved_event_count<>q.reserved_event_count
OR (SELECT count(*) FROM __S__.quota_receipts r WHERE r.tenant_scope=q.tenant_scope AND
r.binding_digest=q.binding_digest AND r.dimension IN ('outputBytes','eventCount'))<>6 OR (SELECT
min(units) FROM __S__.quota_receipts r WHERE r.tenant_scope=q.tenant_scope AND
r.binding_digest=q.binding_digest AND r.dimension='outputBytes')<>q.reserved_output_bytes OR (SELECT
min(units) FROM __S__.quota_receipts r WHERE r.tenant_scope=q.tenant_scope AND
r.binding_digest=q.binding_digest AND r.dimension='eventCount')<>q.reserved_event_count OR
(q.state='settled' AND (q.actual_output_bytes>q.reserved_output_bytes OR
q.actual_event_count>q.reserved_event_count)) OR EXISTS(SELECT 1 FROM __S__.receiver_inbox r WHERE
r.tenant_scope=q.tenant_scope AND r.dispatch_id=q.dispatch_id AND
(r.quota_binding_digest<>q.binding_digest OR r.quota_reservation_id<>q.reservation_id OR
r.quota_reservation_version<>q.reservation_version OR
r.reserved_output_bytes<>q.reserved_output_bytes OR r.reserved_event_count<>q.reserved_event_count
OR (r.state='completed' AND (r.measured_output_bytes>q.reserved_output_bytes OR
r.measured_event_count>q.reserved_event_count))));

-- name: reset_retained
INSERT INTO
__S__.retained_authority_usage(tenant_scope,scope_kind,scope_id,retained_bytes,updated_at)
VALUES($1,$2,$3,$4,__S__.db_millis()) ON CONFLICT(tenant_scope,scope_kind,scope_id) DO UPDATE SET
retained_bytes=EXCLUDED.retained_bytes,updated_at=EXCLUDED.updated_at;

-- name: resolved
SELECT
m.owner_account_id,m.task_id,m.media_type,o.content_digest,m.manifest_digest,o.plaintext_length,o.classification,o.encryption_domain,o.ciphertext_digest,o.ciphertext_length,o.backend_locator,o.nonce,o.key_generation,m.canonical_json,o.state
FROM __S__.artifact_references r JOIN __S__.artifact_manifests m USING(tenant_scope,artifact_id)
JOIN __S__.content_objects o USING(tenant_scope,object_id) WHERE r.tenant_scope=$1 AND
r.artifact_id=$2 AND r.state='active' AND o.state IN ('available','quarantined') AND
o.retain_until>=$6 AND ($3::text IS NULL OR r.task_id=$3) AND (NOT $4 OR r.owner_account_id=$5) FOR
UPDATE OF o;

-- name: restore_incomplete
SELECT __S__.artifact_restore_incomplete();

-- name: restoring
SELECT EXISTS(SELECT 1 FROM __S__.artifact_restore_jobs WHERE tenant_scope=$1 AND state IN
('restoring','verified'));

-- name: retained_counts
SELECT
COALESCE(u.retained_bytes,-1),__S__.retained_authority{suffix}($1,scopes.scope_id)+__S__.artifact_retained{suffix}($1,scopes.scope_id)+__S__.callback_retained{suffix}($1,scopes.scope_id)
FROM (SELECT DISTINCT __S__.authority_retained_scopes_bounded($1,$2) scope_id UNION SELECT DISTINCT
__S__.callback_retained_scopes_bounded($1,$2) scope_id UNION SELECT scope_id FROM
__S__.retained_authority_usage WHERE tenant_scope=$1 AND scope_kind=$2) scopes LEFT JOIN
__S__.retained_authority_usage u ON u.tenant_scope=$1 AND u.scope_kind=$2 AND
u.scope_id=scopes.scope_id ORDER BY scopes.scope_id;

-- name: retained_of
SELECT COALESCE((SELECT retained_bytes FROM __S__.retained_authority_usage WHERE tenant_scope=$1 AND
scope_kind='tenant' AND scope_id=$1),0),COALESCE((SELECT retained_bytes FROM
__S__.retained_authority_usage WHERE tenant_scope=$1 AND scope_kind='principal' AND scope_id=$2),0);

-- name: retained_total
SELECT COALESCE((SELECT retained_bytes FROM __S__.retained_authority_usage WHERE tenant_scope=$1 AND
scope_kind='tenant' AND
scope_id=$1),-1),__S__.retained_authority_oracle($1,NULL)+__S__.artifact_retained_oracle($1,NULL)+__S__.callback_retained_oracle($1,NULL);

-- name: retire_dispatch
UPDATE __S__.outbox SET
state=$1,last_error=$2,lease_owner=NULL,lease_token=NULL,lease_until=NULL,updated_at=$3 WHERE
tenant_scope=$4 AND outbox_id=$5 AND lease_token=$6;

-- name: retire_policy
UPDATE __S__.quota_policy_versions SET lifecycle='draining',retired_at=$3 WHERE tenant_scope=$1 AND
policy_digest=$2 AND lifecycle='active';

-- name: retry_dispatch
UPDATE __S__.outbox SET
state='pending',available_at=$1,last_error=$2,lease_owner=NULL,lease_token=NULL,lease_until=NULL,updated_at=$3
WHERE tenant_scope=$4 AND outbox_id=$5 AND lease_token=$6;

-- name: return_lease_capacity
WITH released AS (SELECT
i.policy_digest,i.operation,r.scope_kind,r.scope_id,r.dimension,r.window_start,sum(r.units)::bigint
units FROM __S__.quota_receipts r JOIN __S__.quota_intents i ON i.tenant_scope=r.tenant_scope AND
i.binding_digest=r.binding_digest WHERE r.tenant_scope=$1 AND r.binding_digest=$2 AND r.dimension IN
('concurrentStreams','concurrentSubscriptions') GROUP BY
i.policy_digest,i.operation,r.scope_kind,r.scope_id,r.dimension,r.window_start) UPDATE
__S__.quota_buckets b SET used_units=GREATEST(b.used_units-released.units,0),updated_at=$3 FROM
released WHERE b.tenant_scope=$1 AND b.policy_digest=released.policy_digest AND
b.operation=released.operation AND b.scope_kind=released.scope_kind AND b.scope_id=released.scope_id
AND b.dimension=released.dimension AND b.window_start=released.window_start;

-- name: revoke_removed
UPDATE __S__.callback_configs c SET state='revoked',updated_at=__S__.db_millis() WHERE NOT
EXISTS(SELECT 1 FROM __S__.callback_enrollments n WHERE n.policy_id=$1 AND n.policy_revision=$2 AND
n.tenant_scope=c.tenant_scope AND n.enrollment_id=c.enrollment_id AND
n.enrollment_generation=c.enrollment_generation AND n.canonical_url=c.canonical_url) AND c.state IN
('active','draining','terminal_closed');

-- name: role_flags
SELECT rolsuper,rolinherit,rolcreaterole,rolcreatedb,rolcanlogin,rolreplication,rolbypassrls FROM
pg_roles WHERE rolname=$1;

-- name: role_members
SELECT member.rolname,parent.rolname,am.admin_option,am.inherit_option,am.set_option FROM
pg_auth_members am JOIN pg_roles member ON member.oid=am.member JOIN pg_roles parent ON
parent.oid=am.roleid WHERE member.rolname=$1 OR parent.rolname=$1 ORDER BY
member.rolname,parent.rolname;

-- name: role_parents
SELECT parent.rolname,am.admin_option,am.inherit_option,am.set_option,
parent.rolsuper,parent.rolinherit,parent.rolcreaterole,parent.rolcreatedb,
parent.rolcanlogin,parent.rolreplication,parent.rolbypassrls, EXISTS(SELECT 1 FROM pg_namespace n
WHERE n.nspname=left(parent.rolname,length(parent.rolname)-8)), EXISTS(SELECT 1 FROM pg_namespace n
JOIN pg_auth_members owner_edge ON owner_edge.member=n.nspowner WHERE
n.nspname=left(parent.rolname,length(parent.rolname)-8) AND owner_edge.roleid=parent.oid AND
owner_edge.admin_option AND NOT owner_edge.inherit_option AND NOT owner_edge.set_option) FROM
pg_auth_members am JOIN pg_roles member ON member.oid=am.member JOIN pg_roles parent ON
parent.oid=am.roleid WHERE member.rolname=$1 AND parent.rolname<>$2 ORDER BY parent.rolname;

-- name: seal_catalog
UPDATE __S__.store_metadata SET schema_version=$1,catalog_hash=$2 WHERE singleton=1;

-- name: seal_progress
UPDATE __S__.stream_transcripts SET frame_count=$1,transcript_digest=$2,updated_at=$3 WHERE
tenant_scope=$4 AND message_id=$5 AND state='open';

-- name: seal_transcript
UPDATE __S__.stream_transcripts SET
state='terminal',frame_count=$1,transcript_digest=$2,terminal_seq=$1,updated_at=$3 WHERE
tenant_scope=$4 AND message_id=$5 AND state='open';

-- name: sealed_catalog
SELECT schema_version,catalog_hash FROM __S__.store_metadata WHERE singleton=1;

-- name: seals
SELECT ordinal,task_id,task_revision,task_digest FROM __S__.list_snapshot_entries WHERE
tenant_scope=$1 AND snapshot_id=$2 ORDER BY ordinal;

-- name: secured_tables
SELECT c.relname::text,c.relrowsecurity,c.relforcerowsecurity FROM pg_class c JOIN pg_namespace n ON
n.oid=c.relnamespace WHERE n.nspname=$1 AND c.relkind IN ('r','p') ORDER BY c.relname;

-- name: set_config_state
UPDATE __S__.callback_configs SET state=$4,updated_at=$5 WHERE tenant_scope=$1 AND task_id=$2 AND
config_id=$3;

-- name: settle_execution
UPDATE __S__.quota_execution_reservations SET
state='settled',actual_output_bytes=$1,actual_event_count=$2,settlement_reason=$3,settled_at=$4
WHERE tenant_scope=$5 AND reservation_id=$6 AND state='reserved';

-- name: snapshot_entries
SELECT ordinal,task_id,task_revision,task_digest,task_json FROM __S__.list_snapshot_entries WHERE
tenant_scope=$1 AND snapshot_id=$2 ORDER BY ordinal;

-- name: snapshot_usage
SELECT count(*),COALESCE(sum(frozen_bytes),0)::bigint FROM __S__.list_snapshots WHERE
tenant_scope=$1;

-- name: storage_violations
SELECT (SELECT count(*) FROM ( SELECT m.tenant_scope,m.artifact_id,m.plaintext_length, count(c.*)
chunks,COALESCE(sum(c.plaintext_length),0) bytes,
bool_and(c.ordinal=row_number_placeholder.expected_ordinal AND
c.byte_offset=row_number_placeholder.expected_offset AND c.plaintext_length BETWEEN 1 AND 4194304)
topology FROM __S__.artifact_manifests m LEFT JOIN __S__.artifact_chunks c
USING(tenant_scope,artifact_id) LEFT JOIN LATERAL (SELECT count(*)::integer AS
expected_ordinal,COALESCE(sum(p.plaintext_length),0) AS expected_offset FROM __S__.artifact_chunks p
WHERE p.tenant_scope=c.tenant_scope AND p.artifact_id=c.artifact_id AND p.ordinal<c.ordinal)
row_number_placeholder ON true GROUP BY m.tenant_scope,m.artifact_id,m.plaintext_length ) x WHERE
bytes<>plaintext_length OR (plaintext_length=0 AND chunks<>0) OR (plaintext_length>0 AND (chunks=0
OR topology IS NOT TRUE))) +(SELECT count(*) FROM __S__.content_objects o WHERE
o.reference_count<>(SELECT count(*) FROM __S__.artifact_references r JOIN __S__.artifact_manifests m
USING(tenant_scope,artifact_id) WHERE m.tenant_scope=o.tenant_scope AND m.object_id=o.object_id AND
r.state='active')) +(SELECT count(*) FROM __S__.content_objects o WHERE
backend_locator!~'^objects/[A-Za-z0-9_-]+/[A-Za-z0-9_-]+$' OR encryption_domain NOT LIKE
tenant_scope||'/%' OR (state='available' AND available_at IS NULL) OR (state='staged' AND
available_at IS NOT NULL) OR (state IN ('tombstoned','deleting','deleted') AND
tombstone_generation=0)) +(SELECT count(*) FROM __S__.content_objects o JOIN
__S__.artifact_manifests m USING(tenant_scope,object_id) WHERE
o.plaintext_length<>m.plaintext_length OR o.classification<>m.classification OR
o.encryption_domain<>m.encryption_domain) +(SELECT count(*) FROM __S__.upload_intents u JOIN
__S__.content_objects o USING(tenant_scope,object_id) WHERE u.artifact_id NOT IN (SELECT artifact_id
FROM __S__.artifact_manifests m WHERE m.tenant_scope=u.tenant_scope AND m.object_id=u.object_id) OR
u.stage_locator!~'^stage/[A-Za-z0-9_-]{32}[.]tmp$' OR u.final_locator<>o.backend_locator OR
u.ciphertext_digest<>o.ciphertext_digest OR u.ciphertext_length<>o.ciphertext_length OR
(u.state='promoting')<>(u.lease_token IS NOT NULL AND u.lease_until IS NOT NULL)) +(SELECT count(*)
FROM __S__.artifact_read_leases WHERE lease_token='' OR lease_epoch<=0 OR lease_until<=created_at)
+(SELECT count(*) FROM __S__.artifact_backup_leases WHERE lease_owner='' OR lease_token='' OR
lease_epoch<=0 OR lease_until<=created_at) +(SELECT count(*) FROM __S__.artifact_retention_holds
WHERE actor_digest='' OR reason_digest='' OR (expires_at IS NOT NULL AND expires_at<=created_at) OR
(state='released')<>(released_at IS NOT NULL)) +(SELECT count(*) FROM __S__.artifact_tombstones t
LEFT JOIN __S__.content_objects o USING(tenant_scope,object_id) WHERE o.object_id IS NULL OR
t.tombstone_generation<=0 OR t.tombstone_generation>o.tombstone_generation) +(SELECT count(*) FROM
__S__.artifact_gc_jobs j JOIN __S__.content_objects o USING(tenant_scope,object_id) WHERE
j.tombstone_generation<>o.tombstone_generation OR (j.state='leased')<>(j.lease_owner IS NOT NULL AND
j.lease_token IS NOT NULL AND j.lease_until IS NOT NULL));

-- name: store_id
SELECT store_id FROM __S__.store_identity WHERE singleton=1;

-- name: store_metadata
SELECT schema_version,migration_hash,catalog_hash,cursor_key,receipt_key FROM __S__.store_metadata
WHERE singleton=1;

-- name: subscription
SELECT t.task_json,t.revision,s.message_id,s.frame_count,s.transcript_digest FROM __S__.tasks t LEFT
JOIN __S__.stream_transcripts s ON s.tenant_scope=t.tenant_scope AND s.task_id=t.task_id AND
s.state='open' WHERE t.tenant_scope=$1 AND t.task_id=$2 AND ($3::boolean=false OR
t.owner_account_id=$4);

-- name: supersede_attempts
UPDATE __S__.outbox_attempts SET finished_at=$1,outcome='superseded' WHERE tenant_scope=$2 AND
finished_at IS NULL AND outbox_id=(SELECT outbox_id FROM __S__.outbox WHERE tenant_scope=$2 AND
dispatch_id=$3);

-- name: supersede_dispatch
UPDATE __S__.outbox SET
state='superseded',lease_owner=NULL,lease_token=NULL,lease_until=NULL,updated_at=$1 WHERE
tenant_scope=$2 AND dispatch_id=$3 AND state!='dead';

-- name: task_counts
SELECT count(*),COALESCE(bool_or(task_id=$2),false) FROM __S__.tasks WHERE tenant_scope=$1;

-- name: task_events
SELECT tenant_scope,task_id,event_seq,task_revision,event_kind,from_state,to_state,event_json FROM
__S__.task_events ORDER BY tenant_scope,task_id,event_seq;

-- name: task_open
SELECT EXISTS(SELECT 1 FROM __S__.tasks WHERE tenant_scope=$1 AND task_id=$2 AND (NOT $3 OR
owner_account_id=$4) AND state NOT IN
('"TASK_STATE_COMPLETED"','"TASK_STATE_FAILED"','"TASK_STATE_CANCELED"','"TASK_STATE_REJECTED"'));

-- name: task_reservation
SELECT 1 FROM __S__.quota_reservations WHERE tenant_scope=$1 AND task_id=$2 LIMIT 1;

-- name: tasks
SELECT tenant_scope,task_id,context_id,state,status_timestamp,revision,task_json FROM __S__.tasks
ORDER BY tenant_scope,task_id;

-- name: tenant_policies
SELECT pg_get_expr(p.polqual,p.polrelid),pg_get_expr(p.polwithcheck,p.polrelid) FROM pg_policy p
JOIN pg_class c ON c.oid=p.polrelid JOIN pg_namespace n ON n.oid=c.relnamespace WHERE n.nspname=$1
AND p.polname='tenant_isolation';

-- name: tenant_policies_in_force
SELECT policy_id,policy_revision,policy_digest FROM __S__.quota_policy_versions WHERE
tenant_scope=$1 AND lifecycle='active';

-- name: tenant_violations
SELECT (SELECT count(*) FROM __S__.callback_configs c LEFT JOIN __S__.tasks t ON
t.tenant_scope=c.tenant_scope AND t.task_id=c.task_id WHERE c.tenant_scope=$1 AND (t.task_id IS NULL
OR c.owner_account_id<>t.owner_account_id)) +(SELECT count(*) FROM __S__.callback_events e LEFT JOIN
__S__.tasks t ON t.tenant_scope=e.tenant_scope AND t.task_id=e.task_id WHERE e.tenant_scope=$1 AND
t.task_id IS NULL);

-- name: tenants
SELECT * FROM __S__.authority_tenants_bounded();

-- name: transcript_row
SELECT state,frame_count,transcript_digest,terminal_seq,interruption_error FROM
__S__.stream_transcripts WHERE tenant_scope=$1 AND message_id=$2;

-- name: transcripts
SELECT
t.tenant_scope,t.message_id,t.state,t.frame_count,t.transcript_digest,t.terminal_seq,t.interruption_error,COALESCE((SELECT
json_agg(f.frame_json::json ORDER BY f.frame_seq)::text FROM __S__.stream_frames f WHERE
f.tenant_scope=t.tenant_scope AND f.message_id=t.message_id),'[]') FROM __S__.stream_transcripts t;

-- name: update_task
UPDATE __S__.tasks SET state=$1,status_timestamp=$2,revision=$3,task_json=$4 WHERE tenant_scope=$5
AND task_id=$6 AND revision=$7;

-- name: used_scopes
SELECT scope_id FROM __S__.retained_authority_usage WHERE tenant_scope=$1 AND scope_kind=$2;

-- name: used_units
SELECT COALESCE(sum(used_units),0)::bigint FROM __S__.quota_buckets WHERE tenant_scope=$1 AND
scope_kind=$2 AND scope_id=$3 AND operation=$4 AND dimension=$5;

-- name: visible_config
SELECT
c.config_id,c.enrollment_id,c.enrollment_generation,c.canonical_url,c.url_digest,c.state,c.created_at
FROM __S__.callback_configs c JOIN __S__.tasks t USING(tenant_scope,task_id) WHERE c.tenant_scope=$1
AND c.task_id=$2 AND c.config_id=$3 AND c.state<>'revoked' AND (NOT $4 OR t.owner_account_id=$5);

-- name: visible_record
SELECT i.request_digest,i.admission_result_json,i.final_result_json,i.task_id FROM
__S__.idempotency_records i JOIN __S__.tasks t ON t.tenant_scope=i.tenant_scope AND
t.task_id=i.task_id WHERE i.tenant_scope=$1 AND i.message_id=$2 AND ($3::boolean=false OR
t.owner_account_id=$4);

-- name: visible_task
SELECT task_json FROM __S__.tasks WHERE tenant_scope=$1 AND task_id=$2 AND ($3::boolean=false OR
owner_account_id=$4);

-- name: write_bucket
UPDATE __S__.quota_buckets SET
capacity=$8,used_units=$9,available_tokens=$10,last_refill_at=$11,refill_numerator=$12,refill_period_millis=$13,refill_remainder=$14,updated_at=$15
WHERE tenant_scope=$1 AND policy_digest=$2 AND scope_kind=$3 AND scope_id=$4 AND operation=$5 AND
dimension=$6 AND window_start=$7;
